//! The fixed pieces of report and snapshot text, each as a specification
//! sequence and as executable data.

use vstd::prelude::*;

verus! {

/// The characters of the fixed report text `ok_line`.
pub open spec fn lit_ok_line() -> Seq<char> {
    seq!['O', 'K', '\n']
}

/// `lit_ok_line` as executable data.
pub fn mk_ok_line() -> (r: Vec<char>)
    ensures
        r@ == lit_ok_line(),
{
    let mut v: Vec<char> = Vec::new();
    v.push('O');
    v.push('K');
    v.push('\n');
    proof {
        assert(v@ =~= lit_ok_line());
    }
    v
}

/// The characters of the fixed report text `ok_ambiguous_line`.
pub open spec fn lit_ok_ambiguous_line() -> Seq<char> {
    seq!['O', 'K', ' ', '(', 'a', 'm', 'b', 'i', 'g', 'u', 'o', 'u', 's', ')', '\n']
}

/// `lit_ok_ambiguous_line` as executable data.
pub fn mk_ok_ambiguous_line() -> (r: Vec<char>)
    ensures
        r@ == lit_ok_ambiguous_line(),
{
    let mut v: Vec<char> = Vec::new();
    v.push('O');
    v.push('K');
    v.push(' ');
    v.push('(');
    v.push('a');
    v.push('m');
    v.push('b');
    v.push('i');
    v.push('g');
    v.push('u');
    v.push('o');
    v.push('u');
    v.push('s');
    v.push(')');
    v.push('\n');
    proof {
        assert(v@ =~= lit_ok_ambiguous_line());
    }
    v
}

/// The characters of the fixed report text `fail_after`.
pub open spec fn lit_fail_after() -> Seq<char> {
    seq!['F', 'A', 'I', 'L', ' ', 'a', 'f', 't', 'e', 'r', ' ']
}

/// `lit_fail_after` as executable data.
pub fn mk_fail_after() -> (r: Vec<char>)
    ensures
        r@ == lit_fail_after(),
{
    let mut v: Vec<char> = Vec::new();
    v.push('F');
    v.push('A');
    v.push('I');
    v.push('L');
    v.push(' ');
    v.push('a');
    v.push('f');
    v.push('t');
    v.push('e');
    v.push('r');
    v.push(' ');
    proof {
        assert(v@ =~= lit_fail_after());
    }
    v
}

/// The characters of the fixed report text `expected_open`.
pub open spec fn lit_expected_open() -> Seq<char> {
    seq!['\n', 'E', 'x', 'p', 'e', 'c', 't', 'e', 'd', ':', ' ', '[']
}

/// `lit_expected_open` as executable data.
pub fn mk_expected_open() -> (r: Vec<char>)
    ensures
        r@ == lit_expected_open(),
{
    let mut v: Vec<char> = Vec::new();
    v.push('\n');
    v.push('E');
    v.push('x');
    v.push('p');
    v.push('e');
    v.push('c');
    v.push('t');
    v.push('e');
    v.push('d');
    v.push(':');
    v.push(' ');
    v.push('[');
    proof {
        assert(v@ =~= lit_expected_open());
    }
    v
}

/// The characters of the fixed report text `expected_close`.
pub open spec fn lit_expected_close() -> Seq<char> {
    seq![']', '\n']
}

/// `lit_expected_close` as executable data.
pub fn mk_expected_close() -> (r: Vec<char>)
    ensures
        r@ == lit_expected_close(),
{
    let mut v: Vec<char> = Vec::new();
    v.push(']');
    v.push('\n');
    proof {
        assert(v@ =~= lit_expected_close());
    }
    v
}

/// The characters of the fixed report text `comma_sep`.
pub open spec fn lit_comma_sep() -> Seq<char> {
    seq![',', ' ']
}

/// `lit_comma_sep` as executable data.
pub fn mk_comma_sep() -> (r: Vec<char>)
    ensures
        r@ == lit_comma_sep(),
{
    let mut v: Vec<char> = Vec::new();
    v.push(',');
    v.push(' ');
    proof {
        assert(v@ =~= lit_comma_sep());
    }
    v
}

/// The characters of the fixed report text `fail_open`.
pub open spec fn lit_fail_open() -> Seq<char> {
    seq!['F', 'A', 'I', 'L', ' ', '(']
}

/// `lit_fail_open` as executable data.
pub fn mk_fail_open() -> (r: Vec<char>)
    ensures
        r@ == lit_fail_open(),
{
    let mut v: Vec<char> = Vec::new();
    v.push('F');
    v.push('A');
    v.push('I');
    v.push('L');
    v.push(' ');
    v.push('(');
    proof {
        assert(v@ =~= lit_fail_open());
    }
    v
}

/// The characters of the fixed report text `fail_close`.
pub open spec fn lit_fail_close() -> Seq<char> {
    seq![')', '\n']
}

/// `lit_fail_close` as executable data.
pub fn mk_fail_close() -> (r: Vec<char>)
    ensures
        r@ == lit_fail_close(),
{
    let mut v: Vec<char> = Vec::new();
    v.push(')');
    v.push('\n');
    proof {
        assert(v@ =~= lit_fail_close());
    }
    v
}

/// The characters of the fixed report text `ms_sep`.
pub open spec fn lit_ms_sep() -> Seq<char> {
    seq!['m', 's', ':', ' ']
}

/// `lit_ms_sep` as executable data.
pub fn mk_ms_sep() -> (r: Vec<char>)
    ensures
        r@ == lit_ms_sep(),
{
    let mut v: Vec<char> = Vec::new();
    v.push('m');
    v.push('s');
    v.push(':');
    v.push(' ');
    proof {
        assert(v@ =~= lit_ms_sep());
    }
    v
}

/// The characters of the fixed report text `path_sep`.
pub open spec fn lit_path_sep() -> Seq<char> {
    seq![':', ' ']
}

/// `lit_path_sep` as executable data.
pub fn mk_path_sep() -> (r: Vec<char>)
    ensures
        r@ == lit_path_sep(),
{
    let mut v: Vec<char> = Vec::new();
    v.push(':');
    v.push(' ');
    proof {
        assert(v@ =~= lit_path_sep());
    }
    v
}

/// The characters of the fixed report text `ok_open`.
pub open spec fn lit_ok_open() -> Seq<char> {
    seq!['O', 'k', '(', '\n']
}

/// `lit_ok_open` as executable data.
pub fn mk_ok_open() -> (r: Vec<char>)
    ensures
        r@ == lit_ok_open(),
{
    let mut v: Vec<char> = Vec::new();
    v.push('O');
    v.push('k');
    v.push('(');
    v.push('\n');
    proof {
        assert(v@ =~= lit_ok_open());
    }
    v
}

/// The characters of the fixed report text `err_open`.
pub open spec fn lit_err_open() -> Seq<char> {
    seq!['E', 'r', 'r', '(', '\n']
}

/// `lit_err_open` as executable data.
pub fn mk_err_open() -> (r: Vec<char>)
    ensures
        r@ == lit_err_open(),
{
    let mut v: Vec<char> = Vec::new();
    v.push('E');
    v.push('r');
    v.push('r');
    v.push('(');
    v.push('\n');
    proof {
        assert(v@ =~= lit_err_open());
    }
    v
}

/// The characters of the fixed report text `close_tail`.
pub open spec fn lit_close_tail() -> Seq<char> {
    seq![',', '\n', ')']
}

/// `lit_close_tail` as executable data.
pub fn mk_close_tail() -> (r: Vec<char>)
    ensures
        r@ == lit_close_tail(),
{
    let mut v: Vec<char> = Vec::new();
    v.push(',');
    v.push('\n');
    v.push(')');
    proof {
        assert(v@ =~= lit_close_tail());
    }
    v
}

/// The characters of the fixed report text `indent_unit`.
pub open spec fn lit_indent_unit() -> Seq<char> {
    seq![' ', ' ', ' ', ' ']
}

/// `lit_indent_unit` as executable data.
pub fn mk_indent_unit() -> (r: Vec<char>)
    ensures
        r@ == lit_indent_unit(),
{
    let mut v: Vec<char> = Vec::new();
    v.push(' ');
    v.push(' ');
    v.push(' ');
    v.push(' ');
    proof {
        assert(v@ =~= lit_indent_unit());
    }
    v
}

/// The characters of the fixed report text `stats_head`.
pub open spec fn lit_stats_head() -> Seq<char> {
    seq!['\n', 'O', 'u', 't', ' ', 'o', 'f', ' ']
}

/// `lit_stats_head` as executable data.
pub fn mk_stats_head() -> (r: Vec<char>)
    ensures
        r@ == lit_stats_head(),
{
    let mut v: Vec<char> = Vec::new();
    v.push('\n');
    v.push('O');
    v.push('u');
    v.push('t');
    v.push(' ');
    v.push('o');
    v.push('f');
    v.push(' ');
    proof {
        assert(v@ =~= lit_stats_head());
    }
    v
}

/// The characters of the fixed report text `stats_tested`.
pub open spec fn lit_stats_tested() -> Seq<char> {
    seq![' ', 'R', 'u', 's', 't', ' ', 'f', 'i', 'l', 'e', 's', ' ', 't', 'e', 's', 't', 'e', 'd', ':', '\n', '*', ' ']
}

/// `lit_stats_tested` as executable data.
pub fn mk_stats_tested() -> (r: Vec<char>)
    ensures
        r@ == lit_stats_tested(),
{
    let mut v: Vec<char> = Vec::new();
    v.push(' ');
    v.push('R');
    v.push('u');
    v.push('s');
    v.push('t');
    v.push(' ');
    v.push('f');
    v.push('i');
    v.push('l');
    v.push('e');
    v.push('s');
    v.push(' ');
    v.push('t');
    v.push('e');
    v.push('s');
    v.push('t');
    v.push('e');
    v.push('d');
    v.push(':');
    v.push('\n');
    v.push('*');
    v.push(' ');
    proof {
        assert(v@ =~= lit_stats_tested());
    }
    v
}

/// The characters of the fixed report text `stats_unambiguous`.
pub open spec fn lit_stats_unambiguous() -> Seq<char> {
    seq![' ', 'p', 'a', 'r', 's', 'e', 'd', ' ', 'f', 'u', 'l', 'l', 'y', ' ', 'a', 'n', 'd', ' ', 'u', 'n', 'a', 'm', 'b', 'i', 'g', 'u', 'o', 'u', 's', 'l', 'y', '\n', '*', ' ']
}

/// `lit_stats_unambiguous` as executable data.
pub fn mk_stats_unambiguous() -> (r: Vec<char>)
    ensures
        r@ == lit_stats_unambiguous(),
{
    let mut v: Vec<char> = Vec::new();
    v.push(' ');
    v.push('p');
    v.push('a');
    v.push('r');
    v.push('s');
    v.push('e');
    v.push('d');
    v.push(' ');
    v.push('f');
    v.push('u');
    v.push('l');
    v.push('l');
    v.push('y');
    v.push(' ');
    v.push('a');
    v.push('n');
    v.push('d');
    v.push(' ');
    v.push('u');
    v.push('n');
    v.push('a');
    v.push('m');
    v.push('b');
    v.push('i');
    v.push('g');
    v.push('u');
    v.push('o');
    v.push('u');
    v.push('s');
    v.push('l');
    v.push('y');
    v.push('\n');
    v.push('*');
    v.push(' ');
    proof {
        assert(v@ =~= lit_stats_unambiguous());
    }
    v
}

/// The characters of the fixed report text `stats_ambiguous`.
pub open spec fn lit_stats_ambiguous() -> Seq<char> {
    seq![' ', 'p', 'a', 'r', 's', 'e', 'd', ' ', 'f', 'u', 'l', 'l', 'y', ' ', '(', 'b', 'u', 't', ' ', 'a', 'm', 'b', 'i', 'g', 'u', 'o', 'u', 's', 'l', 'y', ')', '\n', '*', ' ']
}

/// `lit_stats_ambiguous` as executable data.
pub fn mk_stats_ambiguous() -> (r: Vec<char>)
    ensures
        r@ == lit_stats_ambiguous(),
{
    let mut v: Vec<char> = Vec::new();
    v.push(' ');
    v.push('p');
    v.push('a');
    v.push('r');
    v.push('s');
    v.push('e');
    v.push('d');
    v.push(' ');
    v.push('f');
    v.push('u');
    v.push('l');
    v.push('l');
    v.push('y');
    v.push(' ');
    v.push('(');
    v.push('b');
    v.push('u');
    v.push('t');
    v.push(' ');
    v.push('a');
    v.push('m');
    v.push('b');
    v.push('i');
    v.push('g');
    v.push('u');
    v.push('o');
    v.push('u');
    v.push('s');
    v.push('l');
    v.push('y');
    v.push(')');
    v.push('\n');
    v.push('*');
    v.push(' ');
    proof {
        assert(v@ =~= lit_stats_ambiguous());
    }
    v
}

/// The characters of the fixed report text `stats_partial`.
pub open spec fn lit_stats_partial() -> Seq<char> {
    seq![' ', 'p', 'a', 'r', 's', 'e', 'd', ' ', 'p', 'a', 'r', 't', 'i', 'a', 'l', 'l', 'y', ' ', '(', 'o', 'n', 'l', 'y', ' ', 'a', ' ', 'p', 'r', 'e', 'f', 'i', 'x', ')', '\n', '*', ' ']
}

/// `lit_stats_partial` as executable data.
pub fn mk_stats_partial() -> (r: Vec<char>)
    ensures
        r@ == lit_stats_partial(),
{
    let mut v: Vec<char> = Vec::new();
    v.push(' ');
    v.push('p');
    v.push('a');
    v.push('r');
    v.push('s');
    v.push('e');
    v.push('d');
    v.push(' ');
    v.push('p');
    v.push('a');
    v.push('r');
    v.push('t');
    v.push('i');
    v.push('a');
    v.push('l');
    v.push('l');
    v.push('y');
    v.push(' ');
    v.push('(');
    v.push('o');
    v.push('n');
    v.push('l');
    v.push('y');
    v.push(' ');
    v.push('a');
    v.push(' ');
    v.push('p');
    v.push('r');
    v.push('e');
    v.push('f');
    v.push('i');
    v.push('x');
    v.push(')');
    v.push('\n');
    v.push('*');
    v.push(' ');
    proof {
        assert(v@ =~= lit_stats_partial());
    }
    v
}

/// The characters of the fixed report text `stats_lex`.
pub open spec fn lit_stats_lex() -> Seq<char> {
    seq![' ', 'd', 'i', 'd', 'n', '\'', 't', ' ', 'p', 'a', 'r', 's', 'e', ' ', 'a', 't', ' ', 'a', 'l', 'l', ' ', '(', 'l', 'e', 'x', 'e', 'r', ' ', 'e', 'r', 'r', 'o', 'r', '?', ')', '\n']
}

/// `lit_stats_lex` as executable data.
pub fn mk_stats_lex() -> (r: Vec<char>)
    ensures
        r@ == lit_stats_lex(),
{
    let mut v: Vec<char> = Vec::new();
    v.push(' ');
    v.push('d');
    v.push('i');
    v.push('d');
    v.push('n');
    v.push('\'');
    v.push('t');
    v.push(' ');
    v.push('p');
    v.push('a');
    v.push('r');
    v.push('s');
    v.push('e');
    v.push(' ');
    v.push('a');
    v.push('t');
    v.push(' ');
    v.push('a');
    v.push('l');
    v.push('l');
    v.push(' ');
    v.push('(');
    v.push('l');
    v.push('e');
    v.push('x');
    v.push('e');
    v.push('r');
    v.push(' ');
    v.push('e');
    v.push('r');
    v.push('r');
    v.push('o');
    v.push('r');
    v.push('?');
    v.push(')');
    v.push('\n');
    proof {
        assert(v@ =~= lit_stats_lex());
    }
    v
}

} // verus!
