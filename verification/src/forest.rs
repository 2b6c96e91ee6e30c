//! Arena model of a parse forest: every node reachable from a parse's root
//! lives in one arena, and a node handle is an index into it.  A node's shape
//! says how its children are structured; `Choice` and `Split` nodes hold the
//! alternative derivations of their span, and more than one alternative at
//! such a node is exactly what ambiguity means.

use vstd::prelude::*;

verus! {

/// Signal that a forest position has more than one valid derivation.
/// Carries no payload beyond the fact itself.
#[derive(Clone, Copy, PartialEq, Eq, Structural, Debug)]
pub struct AmbiguityFault;

/// How one forest node's children are structured.  The closed set of shapes
/// a traversal must handle; it carries no child handles itself.
#[derive(Clone, Copy, PartialEq, Eq, Structural, Debug)]
pub enum NodeShape {
    /// Leaf: no children.
    Opaque,
    /// Exactly one child, reached by unwrapping the alias.
    Alias,
    /// Zero or one child, reached by unwrapping the optional.
    Opt,
    /// One or more alternative children, each a complete derivation.
    Choice,
    /// One or more (left, right) pairs, each a way to split the span.
    Split,
}

/// Storage of one node of the forest.  Child handles are indices into the
/// owning forest's arena.
#[derive(Clone, Debug)]
pub enum NodeData {
    Opaque,
    Alias(usize),
    Opt(Option<usize>),
    Choice(Vec<usize>),
    Split(Vec<(usize, usize)>),
}

/// A parse forest: an arena of nodes.  Read-only from the traversal's
/// perspective; a node handle is an index into `nodes`.
#[derive(Clone, Debug)]
pub struct Forest {
    pub nodes: Vec<NodeData>,
}

/// One node's storage is well formed within an arena of `n` nodes when all
/// its child indices are in range and a `Choice` or `Split` node has at
/// least one alternative.
pub open spec fn node_wf(data: NodeData, n: int) -> bool {
    match data {
        NodeData::Opaque => true,
        NodeData::Alias(c) => c < n,
        NodeData::Opt(o) => match o {
            Option::Some(c) => c < n,
            Option::None => true,
        },
        NodeData::Choice(alts) => alts@.len() >= 1 && forall|j: int|
            0 <= j < alts@.len() ==> alts@[j] < n,
        NodeData::Split(pairs) => pairs@.len() >= 1 && forall|j: int|
            0 <= j < pairs@.len() ==> pairs@[j].0 < n && pairs@[j].1 < n,
    }
}

impl Forest {
    /// Number of nodes the arena holds.
    pub open spec fn spec_len(self) -> int {
        self.nodes@.len() as int
    }

    /// A handle is valid when it indexes into the arena.
    pub open spec fn valid(self, i: int) -> bool {
        0 <= i < self.spec_len()
    }

    /// The whole forest is well formed: every node's children are in range
    /// and every `Choice`/`Split` node has at least one alternative.
    pub open spec fn wf(self) -> bool {
        forall|i: int| 0 <= i < self.spec_len() ==> node_wf(#[trigger] self.nodes@[i], self.spec_len())
    }

    /// The shape of the node at `i`.
    pub open spec fn spec_shape(self, i: int) -> NodeShape {
        match self.nodes@[i] {
            NodeData::Opaque => NodeShape::Opaque,
            NodeData::Alias(_) => NodeShape::Alias,
            NodeData::Opt(_) => NodeShape::Opt,
            NodeData::Choice(_) => NodeShape::Choice,
            NodeData::Split(_) => NodeShape::Split,
        }
    }

    /// A node is ambiguous when it offers more than one alternative
    /// derivation of its span.
    pub open spec fn ambiguous_at(self, i: int) -> bool {
        match self.nodes@[i] {
            NodeData::Choice(alts) => alts@.len() > 1,
            NodeData::Split(pairs) => pairs@.len() > 1,
            _ => false,
        }
    }

    /// There is an edge from node `a` to node `b` when `b` is a child of `a`
    /// under any of `a`'s alternatives.
    pub open spec fn edge(self, a: int, b: int) -> bool {
        &&& self.valid(a)
        &&& match self.nodes@[a] {
            NodeData::Opaque => false,
            NodeData::Alias(c) => b == c as int,
            NodeData::Opt(o) => match o {
                Option::Some(c) => b == c as int,
                Option::None => false,
            },
            NodeData::Choice(alts) => exists|j: int|
                0 <= j < alts@.len() && alts@[j] as int == b,
            NodeData::Split(pairs) => exists|j: int|
                0 <= j < pairs@.len() && (pairs@[j].0 as int == b || pairs@[j].1 as int == b),
        }
    }

    /// `p` is a path of node handles from `root` to `n` along child edges.
    pub open spec fn is_path(self, p: Seq<int>, root: int, n: int) -> bool {
        &&& p.len() >= 1
        &&& p[0] == root
        &&& p[p.len() - 1] == n
        &&& forall|k: int| 0 <= k < p.len() - 1 ==> self.edge(#[trigger] p[k], p[k + 1])
    }

    /// `n` is reachable from `root` along child edges (every node reaches
    /// itself by the one-element path).
    pub open spec fn reachable(self, root: int, n: int) -> bool {
        exists|p: Seq<int>| self.is_path(p, root, n)
    }

    /// No node reachable from `root` is ambiguous: the parse rooted there
    /// has a single derivation.
    pub open spec fn clean(self, root: int) -> bool {
        forall|n: int| self.reachable(root, n) ==> !self.ambiguous_at(n)
    }

    /// Reachability extends along an edge.
    pub proof fn lemma_reachable_step(self, root: int, a: int, b: int)
        requires
            self.reachable(root, a),
            self.edge(a, b),
        ensures
            self.reachable(root, b),
    {
        let p = choose|p: Seq<int>| self.is_path(p, root, a);
        let q = p.push(b);
        assert(q[q.len() - 1] == b);
        assert forall|k: int| 0 <= k < q.len() - 1 implies self.edge(#[trigger] q[k], q[k + 1]) by {
            if k < p.len() - 1 {
                assert(self.edge(p[k], p[k + 1]));
            } else {
                assert(q[k] == p[p.len() - 1]);
            }
        }
        assert(self.is_path(q, root, b));
    }

    /// Every node reaches itself.
    pub proof fn lemma_reachable_self(self, root: int)
        ensures
            self.reachable(root, root),
    {
        let p = seq![root];
        assert(self.is_path(p, root, root));
    }

    /// Number of nodes the arena holds.
    pub fn num_nodes(&self) -> (n: usize)
        ensures
            n as int == self.spec_len(),
    {
        self.nodes.len()
    }

    /// The shape query: how are the children of the node at `i` structured?
    pub fn shape(&self, i: usize) -> (s: NodeShape)
        requires
            self.valid(i as int),
        ensures
            s == self.spec_shape(i as int),
    {
        match &self.nodes[i] {
            NodeData::Opaque => NodeShape::Opaque,
            NodeData::Alias(_) => NodeShape::Alias,
            NodeData::Opt(_) => NodeShape::Opt,
            NodeData::Choice(_) => NodeShape::Choice,
            NodeData::Split(_) => NodeShape::Split,
        }
    }

    /// Unwrap an alias node: its single child.  This query never fails.
    pub fn unpack_alias(&self, i: usize) -> (c: usize)
        requires
            self.wf(),
            self.valid(i as int),
            self.spec_shape(i as int) == NodeShape::Alias,
        ensures
            self.valid(c as int),
            self.edge(i as int, c as int),
            forall|b: int| self.edge(i as int, b) ==> b == c as int,
    {
        match &self.nodes[i] {
            NodeData::Alias(c) => *c,
            _ => unreached(),
        }
    }

    /// Unwrap an optional node: its child, if present.  This query never
    /// fails.
    pub fn unpack_opt(&self, i: usize) -> (c: Option<usize>)
        requires
            self.wf(),
            self.valid(i as int),
            self.spec_shape(i as int) == NodeShape::Opt,
        ensures
            match c {
                Option::Some(c) => self.valid(c as int) && self.edge(i as int, c as int)
                    && forall|b: int| self.edge(i as int, b) ==> b == c as int,
                Option::None => forall|b: int| !self.edge(i as int, b),
            },
    {
        match &self.nodes[i] {
            NodeData::Opt(o) => *o,
            _ => unreached(),
        }
    }

    /// Ask a choice node for its single alternative.  Answers with the one
    /// child, or fails with `AmbiguityFault` exactly when the node offers
    /// more than one alternative.
    pub fn one_choice(&self, i: usize) -> (r: Result<usize, AmbiguityFault>)
        requires
            self.wf(),
            self.valid(i as int),
            self.spec_shape(i as int) == NodeShape::Choice,
        ensures
            r is Ok <==> !self.ambiguous_at(i as int),
            match r {
                Result::Ok(c) => self.valid(c as int) && self.edge(i as int, c as int)
                    && forall|b: int| self.edge(i as int, b) ==> b == c as int,
                Result::Err(_) => true,
            },
    {
        match &self.nodes[i] {
            NodeData::Choice(alts) => {
                if alts.len() == 1 {
                    let c = alts[0];
                    proof {
                        let alts_view = self.nodes@[i as int]->Choice_0@;
                        assert(alts_view[0] == c);
                        assert forall|b: int| self.edge(i as int, b) implies b == c as int by {
                            let j = choose|j: int| 0 <= j < alts_view.len() && alts_view[j] as int == b;
                            assert(j == 0);
                        }
                    }
                    Ok(c)
                } else {
                    Err(AmbiguityFault)
                }
            },
            _ => unreached(),
        }
    }

    /// Ask a split node for its single (left, right) pair.  Answers with the
    /// pair, or fails with `AmbiguityFault` exactly when the node offers
    /// more than one way to split its span.
    pub fn one_split(&self, i: usize) -> (r: Result<(usize, usize), AmbiguityFault>)
        requires
            self.wf(),
            self.valid(i as int),
            self.spec_shape(i as int) == NodeShape::Split,
        ensures
            r is Ok <==> !self.ambiguous_at(i as int),
            match r {
                Result::Ok(lr) => self.valid(lr.0 as int) && self.valid(lr.1 as int)
                    && self.edge(i as int, lr.0 as int) && self.edge(i as int, lr.1 as int)
                    && forall|b: int| self.edge(i as int, b) ==> b == lr.0 as int || b == lr.1 as int,
                Result::Err(_) => true,
            },
    {
        match &self.nodes[i] {
            NodeData::Split(pairs) => {
                if pairs.len() == 1 {
                    let l = pairs[0].0;
                    let r = pairs[0].1;
                    proof {
                        let pairs_view = self.nodes@[i as int]->Split_0@;
                        assert(pairs_view[0] == (l, r));
                        assert forall|b: int| self.edge(i as int, b) implies b == l as int
                            || b == r as int by {
                            let j = choose|j: int|
                                0 <= j < pairs_view.len() && (pairs_view[j].0 as int == b
                                    || pairs_view[j].1 as int == b);
                            assert(j == 0);
                        }
                    }
                    Ok((l, r))
                } else {
                    Err(AmbiguityFault)
                }
            },
            _ => unreached(),
        }
    }

    /// Build a forest from raw node storage, checking well-formedness:
    /// answers the forest exactly when every child index is in range and
    /// every `Choice`/`Split` node has at least one alternative.
    pub fn from_nodes(nodes: Vec<NodeData>) -> (r: Option<Forest>)
        ensures
            match r {
                Option::Some(f) => f.wf() && f.nodes@ == nodes@,
                Option::None => !(Forest { nodes }.wf()),
            },
    {
        let n = nodes.len();
        let mut i: usize = 0;
        while i < n
            invariant
                n == nodes@.len(),
                i <= n,
                forall|k: int| 0 <= k < i ==> node_wf(#[trigger] nodes@[k], n as int),
            decreases n - i,
        {
            let ok = match &nodes[i] {
                NodeData::Opaque => true,
                NodeData::Alias(c) => *c < n,
                NodeData::Opt(o) => match o {
                    Option::Some(c) => *c < n,
                    Option::None => true,
                },
                NodeData::Choice(alts) => {
                    let mut ok = alts.len() >= 1;
                    let mut j: usize = 0;
                    while j < alts.len()
                        invariant
                            ok == (alts@.len() >= 1 && forall|t: int|
                                0 <= t < j ==> alts@[t] < n),
                            j <= alts@.len(),
                        decreases alts@.len() - j,
                    {
                        ok = ok && alts[j] < n;
                        j += 1;
                    }
                    ok
                },
                NodeData::Split(pairs) => {
                    let mut ok = pairs.len() >= 1;
                    let mut j: usize = 0;
                    while j < pairs.len()
                        invariant
                            ok == (pairs@.len() >= 1 && forall|t: int|
                                0 <= t < j ==> pairs@[t].0 < n && pairs@[t].1 < n),
                            j <= pairs@.len(),
                        decreases pairs@.len() - j,
                    {
                        ok = ok && pairs[j].0 < n && pairs[j].1 < n;
                        j += 1;
                    }
                    ok
                },
            };
            if !ok {
                proof {
                    let ff = (Forest { nodes: nodes });
                    assert(!node_wf(ff.nodes@[i as int], ff.spec_len()));
                }
                return None;
            }
            i += 1;
        }
        Some(Forest { nodes })
    }
}

} // verus!
