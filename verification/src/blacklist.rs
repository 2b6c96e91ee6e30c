//! Corpus file selection: which files a run classifies.  A candidate is
//! eligible when its path carries the source-language extension and no
//! blacklisted suffix matches a trailing run of its whole path components.

use vstd::prelude::*;

verus! {

/// True when `suffix` is a suffix of `s`.
pub fn ends_with(s: &Vec<char>, suffix: &Vec<char>) -> (r: bool)
    ensures
        r == suffix@.is_suffix_of(s@),
{
    let n = s.len();
    let m = suffix.len();
    if m > n {
        proof {
            assert(!suffix@.is_suffix_of(s@));
        }
        return false;
    }
    let start = n - m;
    let mut k: usize = 0;
    while k < m
        invariant
            m <= n,
            n == s@.len(),
            m == suffix@.len(),
            start == n - m,
            k <= m,
            forall|t: int| 0 <= t < k ==> s@[start + t] == suffix@[t],
        decreases m - k,
    {
        if s[start + k] != suffix[k] {
            proof {
                assert(s@.subrange(start as int, n as int)[k as int] == s@[start + k as int]);
                assert(!suffix@.is_suffix_of(s@));
            }
            return false;
        }
        k += 1;
    }
    proof {
        assert(suffix@ =~= s@.subrange((n - m) as int, n as int));
    }
    true
}

/// True when `suffix` is a trailing run of whole path components of `p`:
/// a character suffix whose match begins at the start of the path or
/// immediately after a `'/'`.  Listing `"tables.rs"` thus excludes
/// `"unicode/tables.rs"` but not `"notables.rs"`.
pub open spec fn component_suffix(suffix: Seq<char>, p: Seq<char>) -> bool {
    &&& suffix.is_suffix_of(p)
    &&& (suffix.len() == p.len() || p[p.len() - suffix.len() - 1] == '/')
}

/// True when `suffix` is a trailing run of whole path components of `s`.
pub fn ends_with_components(s: &Vec<char>, suffix: &Vec<char>) -> (r: bool)
    ensures
        r == component_suffix(suffix@, s@),
{
    if !ends_with(s, suffix) {
        return false;
    }
    suffix.len() == s.len() || s[s.len() - suffix.len() - 1] == '/'
}

/// An ordered list of path suffixes; a file whose path ends with any of
/// them, on whole-component boundaries, is excluded from the corpus run.
#[derive(Clone, Debug)]
pub struct Blacklist {
    pub paths: Vec<Vec<char>>,
}

impl Blacklist {
    /// A path is blacklisted when some listed entry matches a trailing run
    /// of its whole components.
    pub open spec fn spec_blacklisted(self, p: Seq<char>) -> bool {
        exists|j: int| 0 <= j < self.paths@.len() && component_suffix(
            (#[trigger] self.paths@[j])@,
            p,
        )
    }

    /// An empty blacklist, used when no configuration is present.
    pub fn empty() -> (r: Blacklist)
        ensures
            r.paths@.len() == 0,
            forall|p: Seq<char>| !r.spec_blacklisted(p),
    {
        Blacklist { paths: Vec::new() }
    }

    /// Membership test: does `path` end with any listed suffix, on
    /// whole-component boundaries?
    pub fn is_blacklisted(&self, path: &Vec<char>) -> (r: bool)
        ensures
            r == self.spec_blacklisted(path@),
    {
        let mut j: usize = 0;
        while j < self.paths.len()
            invariant
                j <= self.paths@.len(),
                forall|t: int| 0 <= t < j ==> !component_suffix(
                    (#[trigger] self.paths@[t])@,
                    path@,
                ),
            decreases self.paths@.len() - j,
        {
            if ends_with_components(path, &self.paths[j]) {
                return true;
            }
            j += 1;
        }
        false
    }
}

impl Default for Blacklist {
    /// The default blacklist is empty.
    fn default() -> (r: Blacklist)
        ensures
            r.paths@.len() == 0,
    {
        Blacklist::empty()
    }
}

/// The source-language extension, as the characters of `".rs"`.
pub open spec fn rs_suffix() -> Seq<char> {
    seq!['.', 'r', 's']
}

/// A path carries the source-language extension: it ends with `".rs"`,
/// and the file name is not bare `".rs"` (which has no extension at all).
pub open spec fn has_rs_extension(p: Seq<char>) -> bool {
    &&& rs_suffix().is_suffix_of(p)
    &&& p.len() > 3
    &&& p[p.len() - 4] != '/'
}

/// A file is eligible for the corpus run when its path carries the
/// source-language extension and is not blacklisted.
pub open spec fn eligible(bl: Blacklist, p: Seq<char>) -> bool {
    has_rs_extension(p) && !bl.spec_blacklisted(p)
}

/// Exact check of `has_rs_extension`.
pub fn is_rs_path(path: &Vec<char>) -> (r: bool)
    ensures
        r == has_rs_extension(path@),
{
    let n = path.len();
    if n <= 3 {
        return false;
    }
    let mut suffix: Vec<char> = Vec::new();
    suffix.push('.');
    suffix.push('r');
    suffix.push('s');
    proof {
        assert(suffix@ =~= rs_suffix());
    }
    let tail_ok = ends_with(path, &suffix);
    tail_ok && path[n - 4] != '/'
}

/// The indices of the eligible paths among `s`'s first `n` entries, in
/// order.
pub open spec fn eligible_indices_spec(bl: Blacklist, s: Seq<Seq<char>>, n: int) -> Seq<usize>
    decreases n,
{
    if n <= 0 {
        Seq::empty()
    } else {
        let rest = eligible_indices_spec(bl, s, n - 1);
        if eligible(bl, s[n - 1]) {
            rest.push((n - 1) as usize)
        } else {
            rest
        }
    }
}

/// Select the files a corpus run will classify: the indices of the
/// eligible paths, in their enumeration order.
pub fn eligible_indices(paths: &Vec<Vec<char>>, bl: &Blacklist) -> (r: Vec<usize>)
    ensures
        r@ == eligible_indices_spec(*bl, paths@.map_values(|v: Vec<char>| v@), paths@.len() as int),
{
    let ghost s = paths@.map_values(|v: Vec<char>| v@);
    let mut out: Vec<usize> = Vec::new();
    let mut i: usize = 0;
    while i < paths.len()
        invariant
            i <= paths@.len(),
            s == paths@.map_values(|v: Vec<char>| v@),
            out@ == eligible_indices_spec(*bl, s, i as int),
        decreases paths@.len() - i,
    {
        proof {
            assert(s[i as int] == paths@[i as int]@);
        }
        let keep = is_rs_path(&paths[i]) && !bl.is_blacklisted(&paths[i]);
        if keep {
            out.push(i);
        }
        i += 1;
    }
    out
}

/// Law: a blacklisted path is never selected, so it is never classified
/// and contributes to no counter.
pub proof fn lemma_blacklisted_never_selected(bl: Blacklist, s: Seq<Seq<char>>, n: int, i: usize)
    requires
        0 <= n <= usize::MAX,
        bl.spec_blacklisted(s[i as int]),
    ensures
        !eligible_indices_spec(bl, s, n).contains(i),
    decreases n,
{
    if n > 0 {
        lemma_blacklisted_never_selected(bl, s, n - 1, i);
        let rest = eligible_indices_spec(bl, s, n - 1);
        if eligible(bl, s[n - 1]) {
            assert(i as int != n - 1);
            let pushed = rest.push((n - 1) as usize);
            assert forall|k: int| 0 <= k < pushed.len() implies #[trigger] pushed[k] != i by {
                if k < rest.len() {
                    assert(!rest.contains(i));
                }
            }
        }
    }
}

/// Every selected index is in range and eligible; in particular no
/// selected file is blacklisted.
pub proof fn lemma_selected_eligible(bl: Blacklist, s: Seq<Seq<char>>, n: int, k: int)
    requires
        0 <= n <= usize::MAX,
        0 <= k < eligible_indices_spec(bl, s, n).len(),
    ensures
        0 <= eligible_indices_spec(bl, s, n)[k] < n,
        eligible(bl, s[eligible_indices_spec(bl, s, n)[k] as int]),
    decreases n,
{
    if n > 0 {
        let rest = eligible_indices_spec(bl, s, n - 1);
        if k < rest.len() {
            lemma_selected_eligible(bl, s, n - 1, k);
        } else {
            assert(eligible(bl, s[n - 1]));
            assert(eligible_indices_spec(bl, s, n)[k] == (n - 1) as usize);
        }
    }
}

} // verus!
