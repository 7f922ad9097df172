//! Paths and reachability over a sequence of directed edges.
//!
//! An edge `(f, t)` states that node `f` depends on node `t`: it points from
//! a reader or writer pass back to the creator of the version it touches.
//! Reachability is reflexive: every node reaches itself by the empty path.
//!
//! The central structural fact of the frame graph lives here: under the
//! discipline `edges_descend` (every edge leaves either the sink, or a node
//! of higher index than its target, and no edge enters the sink), every
//! non-trivial path strictly descends, so the graph is acyclic.

use vstd::prelude::*;

verus! {

/// Some edge goes from `a` to `b`.
pub open spec fn edge_from_to(edges: Seq<(usize, usize)>, a: usize, b: usize) -> bool {
    exists|j: int| 0 <= j < edges.len() && (#[trigger] edges[j]).0 == a && edges[j].1 == b
}

/// `p` is a walk along `edges`: nonempty, and each adjacent pair is an edge.
pub open spec fn is_path(edges: Seq<(usize, usize)>, p: Seq<usize>) -> bool {
    &&& p.len() >= 1
    &&& forall|i: int| 0 <= i < p.len() - 1 ==> edge_from_to(edges, #[trigger] p[i], p[i + 1])
}

/// `b` can be reached from `a` along `edges` (reflexively).
pub open spec fn reaches(edges: Seq<(usize, usize)>, a: usize, b: usize) -> bool {
    exists|p: Seq<usize>| is_path(edges, p) && p.first() == a && p.last() == b
}

/// No walk of length two or more returns to its starting node.
pub open spec fn acyclic(edges: Seq<(usize, usize)>) -> bool {
    forall|p: Seq<usize>|
        is_path(edges, p) && p.len() >= 2 ==> (#[trigger] p.first()) != p.last()
}

/// The construction discipline of the frame graph: an edge either leaves the
/// sink (node 1) or strictly descends, and no edge enters the sink.
pub open spec fn edge_ok(e: (usize, usize)) -> bool {
    &&& e.1 != 1
    &&& e.0 == 1 || (e.0 >= 2 && e.1 < e.0)
}

/// Every edge obeys `edge_ok`.
pub open spec fn edges_descend(edges: Seq<(usize, usize)>) -> bool {
    forall|j: int| 0 <= j < edges.len() ==> edge_ok(#[trigger] edges[j])
}

pub proof fn lemma_edge_reaches(edges: Seq<(usize, usize)>, a: usize, b: usize)
    requires
        edge_from_to(edges, a, b),
    ensures
        reaches(edges, a, b),
{
    let p = seq![a, b];
    assert(p[0] == a && p[1] == b);
    assert(is_path(edges, p) && p.first() == a && p.last() == b);
}

pub proof fn lemma_reaches_trans(
    edges: Seq<(usize, usize)>,
    a: usize,
    b: usize,
    c: usize,
)
    requires
        reaches(edges, a, b),
        reaches(edges, b, c),
    ensures
        reaches(edges, a, c),
{
    let p1 = choose|p: Seq<usize>| is_path(edges, p) && p.first() == a && p.last() == b;
    let p2 = choose|p: Seq<usize>| is_path(edges, p) && p.first() == b && p.last() == c;
    let q = p1 + p2.drop_first();
    assert(q.len() == p1.len() + p2.len() - 1);
    assert(q.first() == p1.first());
    if p2.len() == 1 {
        assert(q =~= p1);
        assert(b == c);
    } else {
        assert(q.last() == p2.drop_first().last());
        assert(p2.drop_first().last() == p2.last());
        assert forall|i: int| 0 <= i < q.len() - 1 implies edge_from_to(
            edges,
            #[trigger] q[i],
            q[i + 1],
        ) by {
            if i < p1.len() - 1 {
                assert(q[i] == p1[i] && q[i + 1] == p1[i + 1]);
            } else if i == p1.len() - 1 {
                assert(q[i] == p1.last() && q[i + 1] == p2.drop_first()[0]);
                assert(p2.drop_first()[0] == p2[1]);
                assert(edge_from_to(edges, p2[0], p2[1]));
            } else {
                let k = i - p1.len();
                assert(q[i] == p2.drop_first()[k] && q[i + 1] == p2.drop_first()[k + 1]);
                assert(p2.drop_first()[k] == p2[k + 1] && p2.drop_first()[k + 1] == p2[k + 2]);
                assert(edge_from_to(edges, p2[k + 1], p2[k + 2]));
            }
        }
        assert(is_path(edges, q) && q.first() == a && q.last() == c);
    }
}

/// Under the construction discipline, every walk of length two or more ends
/// away from the sink, and either starts at the sink or strictly descends.
pub proof fn lemma_path_descends(edges: Seq<(usize, usize)>, p: Seq<usize>)
    requires
        edges_descend(edges),
        is_path(edges, p),
        p.len() >= 2,
    ensures
        p.last() != 1,
        p.first() == 1 || p.last() < p.first(),
    decreases p.len(),
{
    let j = choose|j: int|
        0 <= j < edges.len() && (#[trigger] edges[j]).0 == p[0] && edges[j].1 == p[1];
    assert(edge_ok(edges[j]));
    if p.len() == 2 {
        assert(p.last() == p[1] && p.first() == p[0]);
    } else {
        let q = p.drop_first();
        assert forall|i: int| 0 <= i < q.len() - 1 implies edge_from_to(
            edges,
            #[trigger] q[i],
            q[i + 1],
        ) by {
            assert(q[i] == p[i + 1] && q[i + 1] == p[i + 2]);
            assert(edge_from_to(edges, p[i + 1], p[i + 2]));
        }
        assert(is_path(edges, q));
        lemma_path_descends(edges, q);
        assert(q.first() == p[1] && q.last() == p.last());
        // p[1] is never the sink, so the tail strictly descends below p[1].
        assert(p.last() < p[1]);
    }
}

/// The construction discipline makes the graph acyclic.
pub proof fn lemma_descending_acyclic(edges: Seq<(usize, usize)>)
    requires
        edges_descend(edges),
    ensures
        acyclic(edges),
{
    assert forall|p: Seq<usize>| is_path(edges, p) && p.len() >= 2 implies (
    #[trigger] p.first()) != p.last() by {
        lemma_path_descends(edges, p);
    }
}

/// Under the construction discipline, a node of lower index than `a` (and
/// distinct from it) is never reached from `a` unless `a` is the sink —
/// in particular, nothing above `a` is ever reached from `a`.
pub proof fn lemma_no_reach_up(edges: Seq<(usize, usize)>, a: usize, b: usize)
    requires
        edges_descend(edges),
        a != 1,
        a != b,
        a <= b,
    ensures
        !reaches(edges, a, b),
{
    if reaches(edges, a, b) {
        let p = choose|p: Seq<usize>| is_path(edges, p) && p.first() == a && p.last() == b;
        assert(p.len() >= 2);
        lemma_path_descends(edges, p);
    }
}

} // verus!
