//! Breadth-first ambiguity detection over a parse forest: prove that exactly
//! one derivation is reachable from a root, or fail fast on the first node
//! that offers more than one alternative.

use vstd::prelude::*;
use vstd::set_lib::{lemma_int_range, lemma_len_subset, set_int_range};

use crate::forest::{AmbiguityFault, Forest, NodeShape};

verus! {

/// The set of node handles marked in a visited map.
spec fn vset(seen: Seq<bool>) -> Set<int> {
    Set::new(|i: int| 0 <= i < seen.len() && seen[i])
}

/// A node has been fully processed by the traversal: it is not ambiguous and
/// every one of its children is already marked visited.
spec fn processed(f: Forest, seen: Seq<bool>, a: int) -> bool {
    &&& !f.ambiguous_at(a)
    &&& forall|b: int| f.edge(a, b) ==> 0 <= b < seen.len() && seen[b]
}

/// Invariant of the breadth-first traversal.  `queue` holds every node ever
/// enqueued (in order), `head` is the count of nodes already dequeued, and
/// `seen` marks exactly the enqueued nodes.
spec fn bfs_inv(f: Forest, root: int, seen: Seq<bool>, queue: Seq<usize>, head: int) -> bool {
    &&& f.wf()
    &&& seen.len() == f.spec_len()
    &&& 0 <= root < f.spec_len()
    &&& seen[root]
    &&& 0 <= head <= queue.len()
    &&& forall|k: int| 0 <= k < queue.len() ==> (#[trigger] queue[k]) < f.spec_len()
        && seen[queue[k] as int]
    &&& forall|i: int| 0 <= i < seen.len() && #[trigger] seen[i] ==> f.reachable(root, i)
    &&& forall|i: int| 0 <= i < seen.len() && #[trigger] seen[i] ==> exists|k: int|
        0 <= k < queue.len() && queue[k] as int == i
    &&& queue.len() == vset(seen).len()
    &&& forall|k: int| 0 <= k < head ==> processed(f, seen, (#[trigger] queue[k]) as int)
}

/// Mark `child` visited and enqueue it, unless it was already visited; the
/// traversal invariant is preserved and the queue never outgrows the arena.
fn enqueue_child(
    f: &Forest,
    seen: &mut Vec<bool>,
    queue: &mut Vec<usize>,
    child: usize,
    Ghost(root): Ghost<int>,
    Ghost(head): Ghost<int>,
)
    requires
        bfs_inv(*f, root, old(seen)@, old(queue)@, head),
        (child as int) < f.spec_len(),
        f.reachable(root, child as int),
    ensures
        bfs_inv(*f, root, final(seen)@, final(queue)@, head),
        final(seen)@.len() == old(seen)@.len(),
        old(queue)@.is_prefix_of(final(queue)@),
        forall|i: int| 0 <= i < old(seen)@.len() && old(seen)@[i] ==> final(seen)@[i],
        final(seen)@[child as int],
        final(queue)@.len() <= f.spec_len(),
{
    proof {
        lemma_int_range(0, f.spec_len());
        lemma_len_subset(vset(seen@), set_int_range(0, f.spec_len()));
    }
    if !seen[child] {
        let ghost old_seen = seen@;
        let ghost old_queue = queue@;
        seen[child] = true;
        queue.push(child);
        proof {
            assert(vset(seen@) =~= vset(old_seen).insert(child as int));
            lemma_len_subset(vset(old_seen), set_int_range(0, f.spec_len()));
            assert(vset(seen@).len() == vset(old_seen).len() + 1);
            lemma_len_subset(vset(seen@), set_int_range(0, f.spec_len()));
            assert(queue@.len() <= f.spec_len());
            assert forall|k: int| 0 <= k < head implies processed(
                *f,
                seen@,
                (#[trigger] queue@[k]) as int,
            ) by {
                assert(queue@[k] == old_queue[k]);
                assert(processed(*f, old_seen, old_queue[k] as int));
            }
            assert forall|i: int| 0 <= i < seen@.len() && #[trigger] seen@[i] implies exists|k: int|
                0 <= k < queue@.len() && queue@[k] as int == i by {
                if i == child as int {
                    assert(queue@[queue@.len() - 1] as int == i);
                } else {
                    assert(old_seen[i]);
                    let k = choose|k: int| 0 <= k < old_queue.len() && old_queue[k] as int == i;
                    assert(queue@[k] as int == i);
                }
            }
            assert(bfs_inv(*f, root, seen@, queue@, head));
        }
    }
}

/// All nodes on a path from a visited root stay within the visited set when
/// the visited set is closed under edges, and none of them is ambiguous.
proof fn lemma_bfs_complete(f: Forest, root: int, seen: Seq<bool>, p: Seq<int>, n: int)
    requires
        f.wf(),
        seen.len() == f.spec_len(),
        0 <= root < f.spec_len(),
        seen[root],
        forall|i: int| 0 <= i < seen.len() && #[trigger] seen[i] ==> processed(f, seen, i),
        f.is_path(p, root, n),
    ensures
        0 <= n < f.spec_len(),
        seen[n],
        !f.ambiguous_at(n),
    decreases p.len(),
{
    if p.len() == 1 {
        assert(n == root);
        assert(processed(f, seen, root));
    } else {
        let q = p.drop_last();
        let m = p[p.len() - 2];
        assert forall|k: int| 0 <= k < q.len() - 1 implies f.edge(#[trigger] q[k], q[k + 1]) by {
            assert(f.edge(p[k], p[k + 1]));
        }
        assert(f.is_path(q, root, m));
        lemma_bfs_complete(f, root, seen, q, m);
        assert(f.edge(m, n));
        assert(processed(f, seen, m));
        assert(seen[n]);
        assert(processed(f, seen, n));
    }
}

/// Breadth-first ambiguity check that also reports how many nodes it
/// visited.  The result is `Ok` exactly when no node reachable from `root`
/// is ambiguous; the visit count never exceeds the number of nodes the
/// arena holds, however many parents share a child.
pub fn ambiguity_check_visits(f: &Forest, root: usize) -> (r: (Result<(), AmbiguityFault>, usize))
    requires
        f.wf(),
        f.valid(root as int),
    ensures
        r.0 is Ok <==> f.clean(root as int),
        r.1 <= f.spec_len(),
{
    let n = f.num_nodes();
    let mut seen: Vec<bool> = Vec::new();
    let mut i: usize = 0;
    while i < n
        invariant
            seen@.len() == i,
            i <= n,
            forall|k: int| 0 <= k < i ==> !(#[trigger] seen@[k]),
        decreases n - i,
    {
        seen.push(false);
        i += 1;
    }
    let mut queue: Vec<usize> = Vec::new();
    seen[root] = true;
    queue.push(root);
    proof {
        f.lemma_reachable_self(root as int);
        lemma_int_range(root as int, root as int + 1);
        assert(vset(seen@) =~= set_int_range(root as int, root as int + 1));
        assert(vset(seen@).len() == 1);
        assert forall|i2: int|
            0 <= i2 < seen@.len() && #[trigger] seen@[i2] implies exists|k: int|
            0 <= k < queue@.len() && queue@[k] as int == i2 by {
            assert(i2 == root as int);
            assert(queue@[0] as int == i2);
        }
        lemma_int_range(0, f.spec_len());
        lemma_len_subset(vset(seen@), set_int_range(0, f.spec_len()));
        assert(bfs_inv(*f, root as int, seen@, queue@, 0));
    }
    let mut head: usize = 0;
    while head < queue.len()
        invariant
            f.valid(root as int),
            bfs_inv(*f, root as int, seen@, queue@, head as int),
            queue@.len() <= f.spec_len(),
        decreases f.spec_len() - head,
    {
        let node = queue[head];
        let ghost node_i = node as int;
        proof {
            assert(seen@[node_i]);
            assert(f.reachable(root as int, node_i));
        }
        match f.shape(node) {
            NodeShape::Opaque => {},
            NodeShape::Alias => {
                let c = f.unpack_alias(node);
                proof {
                    f.lemma_reachable_step(root as int, node_i, c as int);
                }
                enqueue_child(f, &mut seen, &mut queue, c, Ghost(root as int), Ghost(head as int));
            },
            NodeShape::Opt => {
                match f.unpack_opt(node) {
                    Some(c) => {
                        proof {
                            f.lemma_reachable_step(root as int, node_i, c as int);
                        }
                        enqueue_child(
                            f,
                            &mut seen,
                            &mut queue,
                            c,
                            Ghost(root as int),
                            Ghost(head as int),
                        );
                    },
                    None => {},
                }
            },
            NodeShape::Choice => {
                match f.one_choice(node) {
                    Ok(c) => {
                        proof {
                            f.lemma_reachable_step(root as int, node_i, c as int);
                        }
                        enqueue_child(
                            f,
                            &mut seen,
                            &mut queue,
                            c,
                            Ghost(root as int),
                            Ghost(head as int),
                        );
                    },
                    Err(fault) => {
                        proof {
                            assert(f.reachable(root as int, node_i) && f.ambiguous_at(node_i));
                            assert(!f.clean(root as int));
                        }
                        return (Err(fault), head + 1);
                    },
                }
            },
            NodeShape::Split => {
                match f.one_split(node) {
                    Ok((l, r)) => {
                        proof {
                            f.lemma_reachable_step(root as int, node_i, l as int);
                        }
                        enqueue_child(
                            f,
                            &mut seen,
                            &mut queue,
                            l,
                            Ghost(root as int),
                            Ghost(head as int),
                        );
                        proof {
                            f.lemma_reachable_step(root as int, node_i, r as int);
                        }
                        enqueue_child(
                            f,
                            &mut seen,
                            &mut queue,
                            r,
                            Ghost(root as int),
                            Ghost(head as int),
                        );
                    },
                    Err(fault) => {
                        proof {
                            assert(f.reachable(root as int, node_i) && f.ambiguous_at(node_i));
                            assert(!f.clean(root as int));
                        }
                        return (Err(fault), head + 1);
                    },
                }
            },
        }
        proof {
            assert(queue@[head as int] == node);
            assert(processed(*f, seen@, node_i));
            assert forall|k: int| 0 <= k < head as int + 1 implies processed(
                *f,
                seen@,
                (#[trigger] queue@[k]) as int,
            ) by {
                if k < head as int {
                    assert(processed(*f, seen@, queue@[k] as int));
                } else {
                    assert(queue@[k] == node);
                }
            }
        }
        head += 1;
    }
    proof {
        assert forall|i2: int|
            0 <= i2 < seen@.len() && #[trigger] seen@[i2] implies processed(*f, seen@, i2) by {
            let k = choose|k: int| 0 <= k < queue@.len() && queue@[k] as int == i2;
            assert(processed(*f, seen@, queue@[k] as int));
        }
        assert forall|m: int| f.reachable(root as int, m) implies !f.ambiguous_at(m) by {
            let p = choose|p: Seq<int>| f.is_path(p, root as int, m);
            lemma_bfs_complete(*f, root as int, seen@, p, m);
        }
    }
    (Ok(()), head)
}

/// Breadth-first ambiguity check: `Ok` exactly when every node reachable
/// from `root` offers a single derivation, `Err(AmbiguityFault)` exactly
/// when some reachable node offers more than one.
pub fn ambiguity_check(f: &Forest, root: usize) -> (r: Result<(), AmbiguityFault>)
    requires
        f.wf(),
        f.valid(root as int),
    ensures
        r is Ok <==> f.clean(root as int),
{
    let (r, _visits) = ambiguity_check_visits(f, root);
    r
}

/// Law: in a forest with no `Choice` or `Split` node reachable from `root`,
/// no reachable node is ambiguous, so the ambiguity check always succeeds.
pub proof fn lemma_no_alternatives_clean(f: Forest, root: int)
    requires
        forall|m: int| f.reachable(root, m) ==> !((#[trigger] f.spec_shape(m)) is Choice
            || f.spec_shape(m) is Split),
    ensures
        f.clean(root),
{
    assert forall|m: int| f.reachable(root, m) implies !f.ambiguous_at(m) by {
        assert(!(f.spec_shape(m) is Choice || f.spec_shape(m) is Split));
    }
}

/// Law: a single reachable node with more than one alternative makes the
/// whole parse ambiguous, so the ambiguity check must fail.
pub proof fn lemma_ambiguous_witness(f: Forest, root: int, w: int)
    requires
        f.reachable(root, w),
        f.ambiguous_at(w),
    ensures
        !f.clean(root),
{
}

/// Law: the ambiguity check is a pure function of the forest structure.
/// Any two results that satisfy its contract for the same forest and root
/// are equal, so re-running the check always yields the same answer.
pub proof fn lemma_check_deterministic(
    f: Forest,
    root: int,
    r1: Result<(), AmbiguityFault>,
    r2: Result<(), AmbiguityFault>,
)
    requires
        r1 is Ok <==> f.clean(root),
        r2 is Ok <==> f.clean(root),
    ensures
        r1 == r2,
{
    match (r1, r2) {
        (Result::Ok(u1), Result::Ok(u2)) => {
            assert(u1 == u2);
        },
        (Result::Err(e1), Result::Err(e2)) => {
            assert(e1 == e2);
        },
        _ => {
            assert(false);
        },
    }
}

} // verus!
