//! Per-file report text: the verbose line a corpus run prints for one file,
//! the snapshot rendering of a parse result, and the final statistics
//! summary.  Each function returns the exact characters; printing is the
//! caller's business.

use vstd::prelude::*;

use crate::counters::Counters;
use crate::literals::{
    lit_close_tail, lit_comma_sep, lit_err_open, lit_expected_close, lit_expected_open,
    lit_fail_after, lit_fail_close, lit_fail_open, lit_indent_unit, lit_ms_sep,
    lit_ok_ambiguous_line, lit_ok_line, lit_ok_open, lit_path_sep, lit_stats_ambiguous,
    lit_stats_head, lit_stats_lex, lit_stats_partial, lit_stats_tested, lit_stats_unambiguous,
    mk_close_tail, mk_comma_sep, mk_err_open, mk_expected_close, mk_expected_open, mk_fail_after,
    mk_fail_close, mk_fail_open, mk_indent_unit, mk_ms_sep, mk_ok_ambiguous_line, mk_ok_line,
    mk_ok_open, mk_path_sep, mk_stats_ambiguous, mk_stats_head, mk_stats_lex, mk_stats_partial,
    mk_stats_tested, mk_stats_unambiguous,
};
use crate::sorting::{lex_leq, sort_expected, views};
use crate::textops::{append_chars, dec_chars, u64_to_dec};
use vstd::relations::sorted_by;

verus! {

/// The comma-separated join of rendered token names.
pub open spec fn join_comma(s: Seq<Seq<char>>) -> Seq<char>
    decreases s.len(),
{
    if s.len() == 0 {
        Seq::empty()
    } else if s.len() == 1 {
        s[0]
    } else {
        s[0] + lit_comma_sep() + join_comma(s.skip(1))
    }
}

/// Appending one more name extends the join by a separator and the name.
proof fn lemma_join_comma_push(s: Seq<Seq<char>>, x: Seq<char>)
    requires
        s.len() >= 1,
    ensures
        join_comma(s.push(x)) == join_comma(s) + lit_comma_sep() + x,
    decreases s.len(),
{
    let pushed = s.push(x);
    assert(pushed.skip(1) =~= s.skip(1).push(x));
    if s.len() == 1 {
        assert(join_comma(pushed.skip(1)) == x);
        assert(join_comma(pushed) == s[0] + lit_comma_sep() + x);
        assert(join_comma(s) == s[0]);
    } else {
        lemma_join_comma_push(s.skip(1), x);
        assert(join_comma(pushed) == s[0] + lit_comma_sep() + (join_comma(s.skip(1))
            + lit_comma_sep() + x));
        assert(s[0] + lit_comma_sep() + (join_comma(s.skip(1)) + lit_comma_sep() + x) =~= (s[0]
            + lit_comma_sep() + join_comma(s.skip(1))) + lit_comma_sep() + x);
    }
}

/// Join rendered token names with `", "`.
pub fn join_expected(expected: &Vec<Vec<char>>) -> (r: Vec<char>)
    ensures
        r@ == join_comma(views(expected@)),
{
    let ghost vs = views(expected@);
    let mut out: Vec<char> = Vec::new();
    if expected.len() == 0 {
        proof {
            assert(out@ =~= join_comma(vs));
        }
        return out;
    }
    append_chars(&mut out, &expected[0]);
    proof {
        assert(Seq::<char>::empty() + expected@[0]@ =~= expected@[0]@);
        assert(vs.take(1) =~= seq![vs[0]]);
        assert(out@ == join_comma(vs.take(1)));
    }
    let mut i: usize = 1;
    while i < expected.len()
        invariant
            1 <= i <= expected@.len(),
            vs == views(expected@),
            out@ == join_comma(vs.take(i as int)),
        decreases expected@.len() - i,
    {
        let sep = mk_comma_sep();
        append_chars(&mut out, &sep);
        append_chars(&mut out, &expected[i]);
        proof {
            assert(vs.take(i as int).len() >= 1);
            lemma_join_comma_push(vs.take(i as int), vs[i as int]);
            assert(vs.take(i as int + 1) =~= vs.take(i as int).push(vs[i as int]));
            assert(vs[i as int] == expected@[i as int]@);
        }
        i += 1;
    }
    proof {
        assert(vs.take(vs.len() as int) =~= vs);
    }
    out
}

/// `s` with every line prefixed by one indentation unit: the rendering of
/// a nested value inside a pretty-printed result.
pub open spec fn indent_rest(s: Seq<char>) -> Seq<char>
    decreases s.len(),
{
    if s.len() == 0 {
        s
    } else {
        (if s[0] == '\n' {
            seq!['\n'] + lit_indent_unit()
        } else {
            seq![s[0]]
        }) + indent_rest(s.skip(1))
    }
}

/// A nested value's text, indented one unit from the start of each line.
pub open spec fn indent_block(s: Seq<char>) -> Seq<char> {
    lit_indent_unit() + indent_rest(s)
}

/// Indent a rendered value one unit at its start and after each newline.
pub fn indent_chars(s: &Vec<char>) -> (r: Vec<char>)
    ensures
        r@ == indent_block(s@),
{
    let mut out = mk_indent_unit();
    proof {
        assert(s@.skip(0) =~= s@);
    }
    let mut i: usize = 0;
    while i < s.len()
        invariant
            i <= s@.len(),
            indent_block(s@) == out@ + indent_rest(s@.skip(i as int)),
        decreases s@.len() - i,
    {
        let ghost tail = s@.skip(i as int);
        let c = s[i];
        out.push(c);
        if c == '\n' {
            let unit = mk_indent_unit();
            append_chars(&mut out, &unit);
        }
        proof {
            assert(tail[0] == s@[i as int]);
            assert(tail.skip(1) =~= s@.skip(i as int + 1));
            if c == '\n' {
                assert(indent_rest(tail) == (seq!['\n'] + lit_indent_unit()) + indent_rest(
                    tail.skip(1),
                ));
            } else {
                assert(indent_rest(tail) == seq![c] + indent_rest(tail.skip(1)));
            }
            assert(indent_block(s@) =~= out@ + indent_rest(s@.skip(i as int + 1)));
        }
        i += 1;
    }
    proof {
        assert(indent_rest(s@.skip(i as int)) =~= Seq::<char>::empty());
        assert(indent_block(s@) =~= out@);
    }
    out
}

/// Render a parse result to snapshot text, in the shape of a
/// pretty-printed `Result`: the payload is the externally rendered value,
/// indented one unit, inside `Ok(...)` or `Err(...)`.
pub fn parse_result_to_str(result: &Result<Vec<char>, Vec<char>>) -> (r: Vec<char>)
    ensures
        r@ == match result {
            Result::Ok(t) => lit_ok_open() + indent_block(t@) + lit_close_tail(),
            Result::Err(e) => lit_err_open() + indent_block(e@) + lit_close_tail(),
        },
{
    let mut out: Vec<char>;
    match result {
        Ok(t) => {
            out = mk_ok_open();
            let body = indent_chars(t);
            append_chars(&mut out, &body);
        },
        Err(e) => {
            out = mk_err_open();
            let body = indent_chars(e);
            append_chars(&mut out, &body);
        },
    }
    let tail = mk_close_tail();
    append_chars(&mut out, &tail);
    out
}

/// What one file's verbose report line describes, beyond its path and
/// timing: a full parse (ambiguous or not), a partial parse with the
/// rendered names of the tokens that would have been accepted at the
/// failure point, or a lexer failure with its rendered message.
pub enum FileReport {
    Parsed { ambiguous: bool },
    Partial { location: Vec<char>, expected: Vec<Vec<char>> },
    LexFail { message: Vec<char> },
}

/// The fixed prefix of a report line: elapsed milliseconds, then the
/// file's path, each when present.
pub open spec fn report_prefix(millis: Option<u64>, path: Option<Vec<char>>) -> Seq<char> {
    (match millis {
        Option::Some(ms) => dec_chars(ms as int) + lit_ms_sep(),
        Option::None => Seq::empty(),
    }) + (match path {
        Option::Some(p) => p@ + lit_path_sep(),
        Option::None => Seq::empty(),
    })
}

/// The body of a full-parse report line.
pub open spec fn parsed_body(ambiguous: bool) -> Seq<char> {
    if ambiguous {
        lit_ok_ambiguous_line()
    } else {
        lit_ok_line()
    }
}

/// The body of a partial-parse report line, with the expected-token
/// names in the order `names` gives them.
pub open spec fn partial_body(location: Seq<char>, names: Seq<Seq<char>>) -> Seq<char> {
    lit_fail_after() + location + lit_expected_open() + join_comma(names) + lit_expected_close()
}

/// The body of a lex-failure report line.
pub open spec fn lex_fail_body(message: Seq<char>) -> Seq<char> {
    lit_fail_open() + message + lit_fail_close()
}

/// The report text for a single file: elapsed time and path when given,
/// then the outcome.  The expected-token names are printed sorted, so
/// equal expected-sets always render identically, whatever order the
/// parser produced them in; the sorted order and the multiset of names
/// pin the printed list completely.
pub fn report_file_result(millis: Option<u64>, path: &Option<Vec<char>>, rep: &FileReport) -> (r:
    Vec<char>)
    ensures
        *rep matches FileReport::Parsed { ambiguous } ==> r@ == report_prefix(millis, *path)
            + parsed_body(ambiguous),
        *rep matches FileReport::LexFail { message } ==> r@ == report_prefix(millis, *path)
            + lex_fail_body(message@),
        *rep matches FileReport::Partial { location, expected } ==> exists|sv: Seq<Seq<char>>|
            {
                &&& sorted_by(sv, lex_leq())
                &&& sv.to_multiset() == views(expected@).to_multiset()
                &&& r@ == report_prefix(millis, *path) + partial_body(location@, sv)
            },
{
    let mut out: Vec<char> = Vec::new();
    match millis {
        Some(ms) => {
            let num = u64_to_dec(ms);
            append_chars(&mut out, &num);
            let sep = mk_ms_sep();
            append_chars(&mut out, &sep);
        },
        None => {},
    }
    match path {
        Some(p) => {
            append_chars(&mut out, p);
            let sep = mk_path_sep();
            append_chars(&mut out, &sep);
        },
        None => {},
    }
    proof {
        assert(out@ =~= report_prefix(millis, *path));
    }
    match rep {
        FileReport::Parsed { ambiguous } => {
            let line = if *ambiguous {
                mk_ok_ambiguous_line()
            } else {
                mk_ok_line()
            };
            append_chars(&mut out, &line);
            proof {
                assert(out@ =~= report_prefix(millis, *path) + parsed_body(*ambiguous));
            }
        },
        FileReport::Partial { location, expected } => {
            let head = mk_fail_after();
            append_chars(&mut out, &head);
            append_chars(&mut out, location);
            let open = mk_expected_open();
            append_chars(&mut out, &open);
            let sorted = sort_expected(expected);
            let joined = join_expected(&sorted);
            append_chars(&mut out, &joined);
            let close = mk_expected_close();
            append_chars(&mut out, &close);
            proof {
                let sv = views(sorted@);
                assert(sorted_by(sv, lex_leq()));
                assert(sv.to_multiset() == views(expected@).to_multiset());
                assert(out@ =~= report_prefix(millis, *path) + partial_body(location@, sv));
            }
        },
        FileReport::LexFail { message } => {
            let open = mk_fail_open();
            append_chars(&mut out, &open);
            append_chars(&mut out, message);
            let close = mk_fail_close();
            append_chars(&mut out, &close);
            proof {
                assert(out@ =~= report_prefix(millis, *path) + lex_fail_body(message@));
            }
        },
    }
    out
}

/// The statistics summary of a corpus run, as its exact characters.
pub open spec fn statistics_text(c: Counters) -> Seq<char> {
    lit_stats_head() + dec_chars(c.total_count as int) + lit_stats_tested() + dec_chars(
        c.unambiguous_count as int,
    ) + lit_stats_unambiguous() + dec_chars(c.ambiguous_count as int) + lit_stats_ambiguous()
        + dec_chars(c.too_short_count as int) + lit_stats_partial() + dec_chars(
        c.no_parse_count as int,
    ) + lit_stats_lex()
}

/// Render the final five-line statistics summary of a corpus run.
pub fn print_statistics(c: &Counters) -> (r: Vec<char>)
    ensures
        r@ == statistics_text(*c),
{
    let mut out = mk_stats_head();
    let total = u64_to_dec(c.total_count);
    append_chars(&mut out, &total);
    let tested = mk_stats_tested();
    append_chars(&mut out, &tested);
    let unamb = u64_to_dec(c.unambiguous_count);
    append_chars(&mut out, &unamb);
    let line1 = mk_stats_unambiguous();
    append_chars(&mut out, &line1);
    let amb = u64_to_dec(c.ambiguous_count);
    append_chars(&mut out, &amb);
    let line2 = mk_stats_ambiguous();
    append_chars(&mut out, &line2);
    let partial = u64_to_dec(c.too_short_count);
    append_chars(&mut out, &partial);
    let line3 = mk_stats_partial();
    append_chars(&mut out, &line3);
    let lex = u64_to_dec(c.no_parse_count);
    append_chars(&mut out, &lex);
    let line4 = mk_stats_lex();
    append_chars(&mut out, &line4);
    proof {
        assert(out@ =~= statistics_text(*c));
    }
    out
}

} // verus!
