//! Snapshot canonicalization: normalize a rendered parse forest so that
//! snapshots are stable across trivial span and formatting differences.
//! Source-position ranges collapse to a placeholder and known boilerplate
//! empty-group patterns are removed; the rewrites are iterated until the
//! text no longer changes, so canonical text is a fixed point.

use vstd::prelude::*;

verus! {

/// The rendered form of a source-position range, collapsed to the
/// placeholder `'_'`.
pub open spec fn span_pat() -> Seq<char> {
    seq!['S', 'p', 'a', 'n', '.', '.', 'S', 'p', 'a', 'n']
}

/// The placeholder a span range collapses to.
pub open spec fn span_rep() -> Seq<char> {
    seq!['_']
}

/// Boilerplate match-arm prefix dropped from rendered output.
pub open spec fn arrow_pat() -> Seq<char> {
    seq!['_', ' ', '=', '>', ' ']
}

/// Whitespace, as the canonicalizer understands it: the Unicode
/// white-space characters.
pub open spec fn is_ws(c: char) -> bool {
    let u = c as u32;
    ||| u == 0x9
    ||| u == 0xA
    ||| u == 0xB
    ||| u == 0xC
    ||| u == 0xD
    ||| u == 0x20
    ||| u == 0x85
    ||| u == 0xA0
    ||| u == 0x1680
    ||| (0x2000 <= u && u <= 0x200A)
    ||| u == 0x2028
    ||| u == 0x2029
    ||| u == 0x202F
    ||| u == 0x205F
    ||| u == 0x3000
}

/// Replace every occurrence of `pat` in `s` by `rep`, scanning left to
/// right without overlap.
pub open spec fn replace_fixed(s: Seq<char>, pat: Seq<char>, rep: Seq<char>) -> Seq<char>
    decreases s.len(),
        when pat.len() > 0
{
    if s.len() < pat.len() {
        s
    } else if s.take(pat.len() as int) == pat {
        rep + replace_fixed(s.skip(pat.len() as int), pat, rep)
    } else {
        seq![s[0]] + replace_fixed(s.skip(1), pat, rep)
    }
}

/// Length of the whitespace run at the front of `s`.
pub open spec fn ws_run(s: Seq<char>) -> int
    decreases s.len(),
{
    if s.len() > 0 && is_ws(s[0]) {
        1 + ws_run(s.skip(1))
    } else {
        0
    }
}

/// If `s` starts with an empty-group pattern — `'('`, whitespace, `'_'`,
/// an optional `','`, whitespace, `')'` — the length of that match.
pub open spec fn group_len(s: Seq<char>) -> Option<int> {
    if s.len() >= 1 && s[0] == '(' {
        let w1 = ws_run(s.skip(1));
        if w1 >= 1 && s.len() > 1 + w1 && s[1 + w1] == '_' {
            let j = 2 + w1;
            let j2 = if s.len() > j && s[j] == ',' {
                j + 1
            } else {
                j
            };
            let w2 = ws_run(s.skip(j2));
            if w2 >= 1 && s.len() > j2 + w2 && s[j2 + w2] == ')' {
                Some(j2 + w2 + 1)
            } else {
                None
            }
        } else {
            None
        }
    } else {
        None
    }
}

/// The whitespace run is within bounds and a group match is nonempty and
/// within bounds.
pub proof fn lemma_ws_run_bounds(s: Seq<char>)
    ensures
        0 <= ws_run(s) <= s.len(),
    decreases s.len(),
{
    if s.len() > 0 && is_ws(s[0]) {
        lemma_ws_run_bounds(s.skip(1));
    }
}

/// A group match consumes at least one character and at most the whole
/// text.
pub proof fn lemma_group_len_pos(s: Seq<char>)
    ensures
        match group_len(s) {
            Option::Some(l) => 1 <= l <= s.len(),
            Option::None => true,
        },
{
    if s.len() >= 1 && s[0] == '(' {
        lemma_ws_run_bounds(s.skip(1));
    }
}

/// Delete every empty-group match in `s`, scanning left to right.
pub open spec fn remove_groups(s: Seq<char>) -> Seq<char>
    decreases s.len(),
        via remove_groups_dec
{
    if s.len() == 0 {
        s
    } else {
        match group_len(s) {
            Option::Some(l) => remove_groups(s.skip(l)),
            Option::None => seq![s[0]] + remove_groups(s.skip(1)),
        }
    }
}

#[via_fn]
proof fn remove_groups_dec(s: Seq<char>) {
    lemma_group_len_pos(s);
}

/// One canonicalization round: collapse span ranges, drop boilerplate
/// arrow prefixes, then delete empty groups.
pub open spec fn canon_round(s: Seq<char>) -> Seq<char> {
    remove_groups(replace_fixed(replace_fixed(s, span_pat(), span_rep()), arrow_pat(), Seq::empty()))
}

/// A fixed-pattern replacement by something shorter never grows the text,
/// and only an unchanged length means nothing was replaced.
pub proof fn lemma_replace_fixed_len(s: Seq<char>, pat: Seq<char>, rep: Seq<char>)
    requires
        rep.len() < pat.len(),
    ensures
        replace_fixed(s, pat, rep).len() <= s.len(),
        replace_fixed(s, pat, rep).len() == s.len() ==> replace_fixed(s, pat, rep) == s,
    decreases s.len(),
{
    if s.len() < pat.len() {
    } else if s.take(pat.len() as int) == pat {
        lemma_replace_fixed_len(s.skip(pat.len() as int), pat, rep);
    } else {
        lemma_replace_fixed_len(s.skip(1), pat, rep);
        let r = replace_fixed(s, pat, rep);
        if r.len() == s.len() {
            assert(replace_fixed(s.skip(1), pat, rep) == s.skip(1));
            assert(r =~= s);
        }
    }
}

/// Group deletion never grows the text, and only an unchanged length means
/// no group was deleted.
pub proof fn lemma_remove_groups_len(s: Seq<char>)
    ensures
        remove_groups(s).len() <= s.len(),
        remove_groups(s).len() == s.len() ==> remove_groups(s) == s,
    decreases s.len(),
{
    if s.len() == 0 {
    } else {
        lemma_group_len_pos(s);
        match group_len(s) {
            Option::Some(l) => {
                lemma_remove_groups_len(s.skip(l));
            },
            Option::None => {
                lemma_remove_groups_len(s.skip(1));
                let r = remove_groups(s);
                if r.len() == s.len() {
                    assert(remove_groups(s.skip(1)) == s.skip(1));
                    assert(r =~= s);
                }
            },
        }
    }
}

/// A canonicalization round never grows the text, and only an unchanged
/// length means the text was already a fixed point.
pub proof fn lemma_canon_round_len(s: Seq<char>)
    ensures
        canon_round(s).len() <= s.len(),
        canon_round(s).len() == s.len() ==> canon_round(s) == s,
{
    let a = replace_fixed(s, span_pat(), span_rep());
    let b = replace_fixed(a, arrow_pat(), Seq::empty());
    lemma_replace_fixed_len(s, span_pat(), span_rep());
    lemma_replace_fixed_len(a, arrow_pat(), Seq::empty());
    lemma_remove_groups_len(b);
}

/// Canonical text: iterate the rewrite round until the text no longer
/// changes.
pub open spec fn canon(s: Seq<char>) -> Seq<char>
    decreases s.len(),
        via canon_dec
{
    if canon_round(s) == s {
        s
    } else {
        canon(canon_round(s))
    }
}

#[via_fn]
proof fn canon_dec(s: Seq<char>) {
    lemma_canon_round_len(s);
}

/// Canonical text is a fixed point of the rewrite round.
pub proof fn lemma_canon_fixed_point(s: Seq<char>)
    ensures
        canon_round(canon(s)) == canon(s),
    decreases s.len(),
{
    if canon_round(s) == s {
    } else {
        lemma_canon_round_len(s);
        lemma_canon_fixed_point(canon_round(s));
    }
}

/// Law: canonicalization is idempotent — re-applying the span-placeholder
/// and boilerplate-pattern rewrites to already-canonical text yields the
/// same text.
pub proof fn lemma_canon_idempotent(s: Seq<char>)
    ensures
        canon(canon(s)) == canon(s),
{
    lemma_canon_fixed_point(s);
}

/// Does `pat` occur in `s` at position `i`?
fn matches_at(s: &Vec<char>, i: usize, pat: &Vec<char>) -> (r: bool)
    requires
        i <= s@.len(),
    ensures
        r == (i + pat@.len() <= s@.len() && s@.subrange(i as int, i as int + pat@.len()) == pat@),
{
    let n = s.len();
    if pat.len() > n - i {
        return false;
    }
    let mut k: usize = 0;
    while k < pat.len()
        invariant
            i + pat@.len() <= s@.len(),
            s@.len() <= usize::MAX,
            k <= pat@.len(),
            forall|t: int| 0 <= t < k ==> s@[i + t] == pat@[t],
        decreases pat@.len() - k,
    {
        if s[i + k] != pat[k] {
            proof {
                assert(s@.subrange(i as int, i as int + pat@.len())[k as int] == s@[i + k as int]);
            }
            return false;
        }
        k += 1;
    }
    proof {
        assert(s@.subrange(i as int, i as int + pat@.len()) =~= pat@);
    }
    true
}

/// Replace every occurrence of `pat` in `s` by `rep`, scanning left to
/// right without overlap.
pub fn replace_fixed_exec(s: &Vec<char>, pat: &Vec<char>, rep: &Vec<char>) -> (r: Vec<char>)
    requires
        pat@.len() > 0,
    ensures
        r@ == replace_fixed(s@, pat@, rep@),
{
    let mut out: Vec<char> = Vec::new();
    let mut i: usize = 0;
    proof {
        assert(s@.skip(0) =~= s@);
        assert(Seq::<char>::empty() + replace_fixed(s@, pat@, rep@) =~= replace_fixed(
            s@,
            pat@,
            rep@,
        ));
    }
    while i < s.len()
        invariant
            i <= s@.len(),
            pat@.len() > 0,
            replace_fixed(s@, pat@, rep@) == out@ + replace_fixed(s@.skip(i as int), pat@, rep@),
        decreases s@.len() - i,
    {
        let ghost tail = s@.skip(i as int);
        if matches_at(s, i, pat) {
            crate::textops::append_chars(&mut out, rep);
            proof {
                assert(tail.take(pat@.len() as int) =~= s@.subrange(
                    i as int,
                    i as int + pat@.len(),
                ));
                assert(tail.skip(pat@.len() as int) =~= s@.skip(i as int + pat@.len()));
                assert(replace_fixed(tail, pat@, rep@) == rep@ + replace_fixed(
                    s@.skip(i as int + pat@.len()),
                    pat@,
                    rep@,
                ));
                assert(out@ + replace_fixed(s@.skip(i as int + pat@.len()), pat@, rep@)
                    =~= replace_fixed(s@, pat@, rep@));
            }
            i += pat.len();
        } else {
            out.push(s[i]);
            proof {
                assert(tail[0] == s@[i as int]);
                assert(tail.skip(1) =~= s@.skip(i as int + 1));
                if tail.len() >= pat@.len() {
                    assert(tail.take(pat@.len() as int) =~= s@.subrange(
                        i as int,
                        i as int + pat@.len(),
                    ));
                    assert(replace_fixed(tail, pat@, rep@) == seq![tail[0]] + replace_fixed(
                        tail.skip(1),
                        pat@,
                        rep@,
                    ));
                } else {
                    assert(replace_fixed(tail, pat@, rep@) == tail);
                    assert(replace_fixed(tail.skip(1), pat@, rep@) == tail.skip(1));
                    assert(tail =~= seq![tail[0]] + tail.skip(1));
                }
                assert(out@ + replace_fixed(s@.skip(i as int + 1), pat@, rep@) =~= replace_fixed(
                    s@,
                    pat@,
                    rep@,
                ));
            }
            i += 1;
        }
    }
    proof {
        assert(s@.skip(s@.len() as int).len() == 0);
        assert(out@ + replace_fixed(s@.skip(i as int), pat@, rep@) =~= out@);
    }
    out
}

/// Whitespace test matching the canonicalizer's notion of whitespace.
fn is_ws_char(c: char) -> (r: bool)
    ensures
        r == is_ws(c),
{
    let u = c as u32;
    u == 0x9 || u == 0xA || u == 0xB || u == 0xC || u == 0xD || u == 0x20 || u == 0x85
        || u == 0xA0 || u == 0x1680 || (0x2000 <= u && u <= 0x200A) || u == 0x2028 || u == 0x2029
        || u == 0x202F || u == 0x205F || u == 0x3000
}

/// A front-maximal whitespace run is exactly `ws_run`.
proof fn lemma_ws_run_eq(s: Seq<char>, m: int)
    requires
        0 <= m <= s.len(),
        forall|t: int| 0 <= t < m ==> is_ws(#[trigger] s[t]),
        m == s.len() || !is_ws(s[m]),
    ensures
        ws_run(s) == m,
    decreases m,
{
    if m == 0 {
    } else {
        assert(is_ws(s[0]));
        assert forall|t: int| 0 <= t < m - 1 implies is_ws(#[trigger] s.skip(1)[t]) by {
            assert(s.skip(1)[t] == s[t + 1]);
        }
        if m < s.len() {
            assert(s.skip(1)[m - 1] == s[m]);
        }
        lemma_ws_run_eq(s.skip(1), m - 1);
    }
}

/// Length of the whitespace run of `s` starting at `from`.
fn ws_run_from(s: &Vec<char>, from: usize) -> (w: usize)
    requires
        from <= s@.len(),
    ensures
        w as int == ws_run(s@.skip(from as int)),
        from + w <= s@.len(),
{
    let n = s.len();
    let mut w: usize = 0;
    while from + w < n && is_ws_char(s[from + w])
        invariant
            n == s@.len(),
            from + w <= s@.len(),
            forall|t: int| 0 <= t < w ==> is_ws(#[trigger] s@[from + t]),
        decreases s@.len() - from - w,
    {
        w += 1;
    }
    proof {
        let tail = s@.skip(from as int);
        assert forall|t: int| 0 <= t < w implies is_ws(#[trigger] tail[t]) by {
            assert(tail[t] == s@[from + t]);
        }
        if from + w < s@.len() {
            assert(tail[w as int] == s@[from + w as int]);
        }
        lemma_ws_run_eq(tail, w as int);
    }
    w
}

/// If `s` has an empty-group match at position `i`, its length.
fn group_at(s: &Vec<char>, i: usize) -> (r: Option<usize>)
    requires
        i < s@.len(),
    ensures
        match r {
            Option::Some(l) => group_len(s@.skip(i as int)) == Option::Some(l as int) && 1 <= l
                && i + l <= s@.len(),
            Option::None => group_len(s@.skip(i as int)) is None,
        },
{
    let n = s.len();
    let ghost tail = s@.skip(i as int);
    proof {
        assert(tail[0] == s@[i as int]);
    }
    if s[i] != '(' {
        return None;
    }
    let w1 = ws_run_from(s, i + 1);
    proof {
        assert(tail.skip(1) =~= s@.skip(i as int + 1));
        assert(ws_run(tail.skip(1)) == w1 as int);
        lemma_group_len_pos(tail);
    }
    if w1 == 0 {
        return None;
    }
    if i + 1 + w1 >= n {
        proof {
            assert(tail.len() == s@.len() - i);
        }
        return None;
    }
    proof {
        assert(tail[1 + w1 as int] == s@[i + 1 + w1 as int]);
    }
    if s[i + 1 + w1] != '_' {
        return None;
    }
    let j = 2 + w1;
    let j2 = if i + j < n && s[i + j] == ',' {
        proof {
            assert(tail[j as int] == s@[i + j as int]);
        }
        j + 1
    } else {
        proof {
            if i + j < s@.len() {
                assert(tail[j as int] == s@[i + j as int]);
            } else {
                assert(tail.len() == s@.len() - i);
            }
        }
        j
    };
    proof {
        assert(tail.len() > 1 + w1 as int);
    }
    let w2 = ws_run_from(s, i + j2);
    proof {
        assert(tail.skip(j2 as int) =~= s@.skip(i as int + j2 as int));
        assert(ws_run(tail.skip(j2 as int)) == w2 as int);
    }
    if w2 == 0 {
        return None;
    }
    if i + j2 + w2 >= n {
        proof {
            assert(tail.len() == s@.len() - i);
        }
        return None;
    }
    proof {
        assert(tail[j2 + w2 as int] == s@[i + j2 + w2 as int]);
    }
    if s[i + j2 + w2] != ')' {
        return None;
    }
    Some(j2 + w2 + 1)
}

/// Delete every empty-group match in `s`, scanning left to right.
pub fn remove_groups_exec(s: &Vec<char>) -> (r: Vec<char>)
    ensures
        r@ == remove_groups(s@),
{
    let mut out: Vec<char> = Vec::new();
    let mut i: usize = 0;
    proof {
        assert(s@.skip(0) =~= s@);
        assert(Seq::<char>::empty() + remove_groups(s@) =~= remove_groups(s@));
    }
    while i < s.len()
        invariant
            i <= s@.len(),
            remove_groups(s@) == out@ + remove_groups(s@.skip(i as int)),
        decreases s@.len() - i,
    {
        let ghost tail = s@.skip(i as int);
        match group_at(s, i) {
            Some(l) => {
                proof {
                    assert(tail.skip(l as int) =~= s@.skip(i as int + l as int));
                    assert(remove_groups(tail) == remove_groups(s@.skip(i as int + l as int)));
                }
                i += l;
            },
            None => {
                out.push(s[i]);
                proof {
                    assert(tail[0] == s@[i as int]);
                    assert(tail.skip(1) =~= s@.skip(i as int + 1));
                    assert(remove_groups(tail) == seq![tail[0]] + remove_groups(
                        s@.skip(i as int + 1),
                    ));
                    assert(out@ + remove_groups(s@.skip(i as int + 1)) =~= remove_groups(s@));
                }
                i += 1;
            },
        }
    }
    proof {
        assert(s@.skip(i as int).len() == 0);
        assert(out@ + remove_groups(s@.skip(i as int)) =~= out@);
    }
    out
}

/// The span pattern as executable data.
fn span_pattern() -> (r: Vec<char>)
    ensures
        r@ == span_pat(),
{
    let mut v: Vec<char> = Vec::new();
    v.push('S');
    v.push('p');
    v.push('a');
    v.push('n');
    v.push('.');
    v.push('.');
    v.push('S');
    v.push('p');
    v.push('a');
    v.push('n');
    proof {
        assert(v@ =~= span_pat());
    }
    v
}

/// The arrow pattern as executable data.
fn arrow_pattern() -> (r: Vec<char>)
    ensures
        r@ == arrow_pat(),
{
    let mut v: Vec<char> = Vec::new();
    v.push('_');
    v.push(' ');
    v.push('=');
    v.push('>');
    v.push(' ');
    proof {
        assert(v@ =~= arrow_pat());
    }
    v
}

/// One canonicalization round over executable text.
fn canon_round_exec(s: &Vec<char>) -> (r: Vec<char>)
    ensures
        r@ == canon_round(s@),
{
    let span = span_pattern();
    let mut placeholder: Vec<char> = Vec::new();
    placeholder.push('_');
    proof {
        assert(placeholder@ =~= span_rep());
    }
    let arrow = arrow_pattern();
    let empty: Vec<char> = Vec::new();
    proof {
        assert(empty@ =~= Seq::<char>::empty());
    }
    let a = replace_fixed_exec(s, &span, &placeholder);
    let b = replace_fixed_exec(&a, &arrow, &empty);
    remove_groups_exec(&b)
}

/// Canonicalize rendered snapshot text: apply the span-placeholder and
/// empty-group rewrites until the text no longer changes.  The result is
/// `canon` of the input, hence a fixed point of the rewrite round.
pub fn canonicalize(text: &Vec<char>) -> (r: Vec<char>)
    ensures
        r@ == canon(text@),
{
    let mut cur = crate::textops::copy_chars(text);
    loop
        invariant
            canon(text@) == canon(cur@),
        decreases cur@.len(),
    {
        let next = canon_round_exec(&cur);
        proof {
            lemma_canon_round_len(cur@);
        }
        if next.len() == cur.len() {
            proof {
                assert(canon_round(cur@) == cur@);
                assert(canon(cur@) == cur@);
            }
            return cur;
        }
        cur = next;
    }
}

} // verus!
