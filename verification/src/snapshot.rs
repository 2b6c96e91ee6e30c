//! The snapshot runner's decision core: derive a test file's target
//! production from its name, compare canonical text against a golden
//! snapshot, and fold per-file pass/fail records into an exit status.
//! Worker isolation and file handling stay with the caller.

use vstd::prelude::*;

use crate::canon::{canon, canonicalize};
use crate::textops::chars_eq;

verus! {

/// Index of the first `'.'` in `s`, or its length when there is none.
pub open spec fn first_dot(s: Seq<char>) -> int
    decreases s.len(),
{
    if s.len() == 0 {
        0
    } else if s[0] == '.' {
        0
    } else {
        1 + first_dot(s.skip(1))
    }
}

/// A position with no dot before it and a dot (or the end) at it is the
/// first dot.
proof fn lemma_first_dot_eq(s: Seq<char>, m: int)
    requires
        0 <= m <= s.len(),
        forall|t: int| 0 <= t < m ==> s[t] != '.',
        m == s.len() || s[m] == '.',
    ensures
        first_dot(s) == m,
    decreases m,
{
    if m == 0 {
    } else {
        assert(s[0] != '.');
        assert forall|t: int| 0 <= t < m - 1 implies s.skip(1)[t] != '.' by {
            assert(s.skip(1)[t] == s[t + 1]);
        }
        if m < s.len() {
            assert(s.skip(1)[m - 1] == s[m]);
        }
        lemma_first_dot_eq(s.skip(1), m - 1);
    }
}

/// The production tag a test file targets: its name up to the first dot.
pub fn production_prefix(file_name: &Vec<char>) -> (r: Vec<char>)
    ensures
        r@ == file_name@.take(first_dot(file_name@)),
{
    let n = file_name.len();
    let mut out: Vec<char> = Vec::new();
    let mut i: usize = 0;
    while i < n && file_name[i] != '.'
        invariant
            n == file_name@.len(),
            i <= n,
            forall|t: int| 0 <= t < i ==> file_name@[t] != '.',
            out@ == file_name@.take(i as int),
        decreases n - i,
    {
        out.push(file_name[i]);
        proof {
            assert(file_name@.take(i as int + 1) =~= file_name@.take(i as int).push(
                file_name@[i as int],
            ));
        }
        i += 1;
    }
    proof {
        lemma_first_dot_eq(file_name@, i as int);
    }
    out
}

/// Look a production name up in the fixed name-to-production table:
/// the first index whose entry equals the name, if any.  An absent name is
/// a configuration error, fatal to the whole run, which the caller raises.
pub fn find_production(table: &Vec<Vec<char>>, name: &Vec<char>) -> (r: Option<usize>)
    ensures
        match r {
            Option::Some(i) => i < table@.len() && table@[i as int]@ == name@ && forall|t: int|
                0 <= t < i ==> table@[t]@ != name@,
            Option::None => forall|t: int| 0 <= t < table@.len() ==> table@[t]@ != name@,
        },
{
    let mut i: usize = 0;
    while i < table.len()
        invariant
            i <= table@.len(),
            forall|t: int| 0 <= t < i ==> table@[t]@ != name@,
        decreases table@.len() - i,
    {
        if chars_eq(&table[i], name) {
            return Some(i);
        }
        i += 1;
    }
    None
}

/// Compare one file's rendered parse forest against its golden snapshot:
/// the test passes exactly when the canonical form of the rendered text
/// equals the stored snapshot.
pub fn snapshot_check(rendered: &Vec<char>, golden: &Vec<char>) -> (pass: bool)
    ensures
        pass == (canon(rendered@) == golden@),
{
    let canonical = canonicalize(rendered);
    chars_eq(&canonical, golden)
}

/// Did every snapshot test pass?
pub fn all_passed(results: &Vec<bool>) -> (r: bool)
    ensures
        r == forall|t: int| 0 <= t < results@.len() ==> results@[t],
{
    let mut i: usize = 0;
    while i < results.len()
        invariant
            i <= results@.len(),
            forall|t: int| 0 <= t < i ==> results@[t],
        decreases results@.len() - i,
    {
        if !results[i] {
            return false;
        }
        i += 1;
    }
    true
}

/// The snapshot runner's exit status: zero exactly when every per-file
/// record is a pass, one otherwise.
pub fn exit_status(results: &Vec<bool>) -> (r: i32)
    ensures
        (r == 0) == (forall|t: int| 0 <= t < results@.len() ==> results@[t]),
        r == 0 || r == 1,
{
    if all_passed(results) {
        0
    } else {
        1
    }
}

} // verus!
