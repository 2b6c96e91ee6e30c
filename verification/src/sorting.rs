//! Lexicographic ordering of rendered token names, and the verified sort
//! the failure report applies to the expected-token set before printing.

use vstd::multiset::Multiset;
use vstd::prelude::*;
use vstd::relations::sorted_by;
use vstd::seq_lib::lemma_multiset_commutative;

use crate::textops::copy_chars;

verus! {

/// Lexicographic order on character sequences, by code point, with a
/// prefix ordered before its extensions.
pub open spec fn lex_le(a: Seq<char>, b: Seq<char>) -> bool
    decreases a.len(),
{
    if a.len() == 0 {
        true
    } else if b.len() == 0 {
        false
    } else if (a[0] as u32) < (b[0] as u32) {
        true
    } else if (a[0] as u32) > (b[0] as u32) {
        false
    } else {
        lex_le(a.skip(1), b.skip(1))
    }
}

/// The order is total: any two sequences compare one way or the other.
pub proof fn lemma_lex_le_total(a: Seq<char>, b: Seq<char>)
    ensures
        lex_le(a, b) || lex_le(b, a),
    decreases a.len(),
{
    if a.len() > 0 && b.len() > 0 && a[0] as u32 == b[0] as u32 {
        lemma_lex_le_total(a.skip(1), b.skip(1));
    }
}

/// The order is transitive.
pub proof fn lemma_lex_le_trans(a: Seq<char>, b: Seq<char>, c: Seq<char>)
    requires
        lex_le(a, b),
        lex_le(b, c),
    ensures
        lex_le(a, c),
    decreases a.len(),
{
    if a.len() == 0 {
    } else {
        assert(b.len() > 0);
        assert(c.len() > 0);
        if a[0] as u32 == b[0] as u32 && b[0] as u32 == c[0] as u32 {
            lemma_lex_le_trans(a.skip(1), b.skip(1), c.skip(1));
        }
    }
}

/// Comparing after a common prefix is comparing the remainders.
proof fn lemma_lex_le_skip(a: Seq<char>, b: Seq<char>, k: int)
    requires
        0 <= k <= a.len(),
        k <= b.len(),
        forall|t: int| 0 <= t < k ==> (a[t] as u32) == (b[t] as u32),
    ensures
        lex_le(a, b) == lex_le(a.skip(k), b.skip(k)),
    decreases k,
{
    if k > 0 {
        assert((a[0] as u32) == (b[0] as u32));
        assert forall|t: int| 0 <= t < k - 1 implies (a.skip(1)[t] as u32) == (b.skip(1)[t] as u32) by {
            assert(a.skip(1)[t] == a[t + 1]);
            assert(b.skip(1)[t] == b[t + 1]);
        }
        lemma_lex_le_skip(a.skip(1), b.skip(1), k - 1);
        assert(a.skip(1).skip(k - 1) =~= a.skip(k));
        assert(b.skip(1).skip(k - 1) =~= b.skip(k));
    } else {
        assert(a.skip(0) =~= a);
        assert(b.skip(0) =~= b);
    }
}

/// Exact lexicographic comparison.
pub fn chars_le(a: &Vec<char>, b: &Vec<char>) -> (r: bool)
    ensures
        r == lex_le(a@, b@),
{
    let an = a.len();
    let bn = b.len();
    let mut k: usize = 0;
    while k < an && k < bn
        invariant
            an == a@.len(),
            bn == b@.len(),
            k <= an,
            k <= bn,
            forall|t: int| 0 <= t < k ==> (a@[t] as u32) == (b@[t] as u32),
        decreases an - k,
    {
        if (a[k] as u32) < (b[k] as u32) {
            proof {
                lemma_lex_le_skip(a@, b@, k as int);
                assert(a@.skip(k as int)[0] == a@[k as int]);
                assert(b@.skip(k as int)[0] == b@[k as int]);
            }
            return true;
        }
        if (a[k] as u32) > (b[k] as u32) {
            proof {
                lemma_lex_le_skip(a@, b@, k as int);
                assert(a@.skip(k as int)[0] == a@[k as int]);
                assert(b@.skip(k as int)[0] == b@[k as int]);
            }
            return false;
        }
        k += 1;
    }
    proof {
        lemma_lex_le_skip(a@, b@, k as int);
    }
    k == an
}

/// The lexicographic order as a relation value, for `sorted_by`.
pub open spec fn lex_leq() -> spec_fn(Seq<char>, Seq<char>) -> bool {
    |x: Seq<char>, y: Seq<char>| lex_le(x, y)
}

/// The views of a list of character vectors.
pub open spec fn views(v: Seq<Vec<char>>) -> Seq<Seq<char>> {
    v.map_values(|u: Vec<char>| u@)
}

/// Sort rendered token names lexicographically: the result is ordered and
/// holds exactly the input names, multiplicities included.
pub fn sort_expected(v: &Vec<Vec<char>>) -> (r: Vec<Vec<char>>)
    ensures
        sorted_by(views(r@), lex_leq()),
        views(r@).to_multiset() == views(v@).to_multiset(),
{
    let ghost mapped = views(v@);
    let mut out: Vec<Vec<char>> = Vec::new();
    proof {
        assert(views(out@) =~= Seq::<Seq<char>>::empty());
        assert(mapped.take(0) =~= Seq::<Seq<char>>::empty());
        assert(views(out@).to_multiset() =~= mapped.take(0).to_multiset());
    }
    let mut i: usize = 0;
    while i < v.len()
        invariant
            i <= v@.len(),
            mapped == views(v@),
            sorted_by(views(out@), lex_leq()),
            views(out@).to_multiset() == mapped.take(i as int).to_multiset(),
            out@.len() == i,
        decreases v@.len() - i,
    {
        let x = copy_chars(&v[i]);
        let ghost xv = x@;
        let mut p: usize = 0;
        while p < out.len() && !chars_le(&x, &out[p])
            invariant
                p <= out@.len(),
                forall|t: int| 0 <= t < p ==> !lex_le(xv, (#[trigger] views(out@)[t])),
                xv == x@,
            decreases out@.len() - p,
        {
            p += 1;
        }
        let ghost old_views = views(out@);
        out.insert(p, x);
        proof {
            broadcast use vstd::seq_lib::group_to_multiset_ensures;

            let new_views = views(out@);
            assert(new_views =~= old_views.take(p as int) + seq![xv] + old_views.skip(p as int));
            // multiset: inserting one element
            lemma_multiset_commutative(old_views.take(p as int) + seq![xv], old_views.skip(p as int));
            lemma_multiset_commutative(old_views.take(p as int), seq![xv]);
            lemma_multiset_commutative(old_views.take(p as int), old_views.skip(p as int));
            assert(old_views.take(p as int) + old_views.skip(p as int) =~= old_views);
            assert(seq![xv].to_multiset() =~= Multiset::<Seq<char>>::empty().insert(xv));
            assert(new_views.to_multiset() =~= old_views.to_multiset().insert(xv));
            assert(mapped.take(i as int + 1).drop_last() =~= mapped.take(i as int));
            assert(mapped.take(i as int + 1) =~= mapped.take(i as int).push(mapped[i as int]));
            assert(mapped[i as int] == xv);
            assert(new_views.to_multiset() =~= mapped.take(i as int + 1).to_multiset());
            // order: the element went in front of the first entry it precedes
            assert forall|s: int, t: int| 0 <= s < t < new_views.len() implies lex_leq()(
                new_views[s],
                new_views[t],
            ) by {
                if s < p && t < p {
                    assert(new_views[s] == old_views[s] && new_views[t] == old_views[t]);
                } else if s < p && t == p {
                    lemma_lex_le_total(xv, old_views[s]);
                } else if s < p && t > p {
                    assert(new_views[t] == old_views[t - 1]);
                } else if s == p && t > p {
                    assert(new_views[t] == old_views[t - 1]);
                    if p < old_views.len() {
                        if t - 1 == p {
                            assert(lex_le(xv, old_views[p as int]));
                        } else {
                            assert(lex_le(xv, old_views[p as int]));
                            assert(lex_leq()(old_views[p as int], old_views[t - 1]));
                            lemma_lex_le_trans(xv, old_views[p as int], old_views[t - 1]);
                        }
                    }
                } else {
                    assert(new_views[s] == old_views[s - 1] && new_views[t] == old_views[t - 1]);
                }
            }
        }
        i += 1;
    }
    proof {
        assert(mapped.take(i as int) =~= mapped);
    }
    out
}

} // verus!
