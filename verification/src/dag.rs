//! Trusted surface over `daggy::Dag`, the directed-acyclic-graph store that
//! holds the pass nodes and dependency edges.
//!
//! The graph structure itself lives in the outside crate; this module gives
//! it a mathematical model — a node count and the sequence of directed
//! edges in insertion order — and wraps the handful of calls the library
//! makes. Everything else about the frame graph is verified against that
//! model.
//!
//! Sources relied on (daggy 0.9.0 over petgraph 0.8.3):
//! - node indices are assigned compactly, `0..node_count`, in insertion
//!   order; `add_node` returns the previous count;
//! - `raw_edges` exposes the edges in insertion order, each with its
//!   `source` and `target`;
//! - `add_edge` refuses exactly the edges that would close a
//!   cycle, by checking for a path from `b` back to `a`;
//! - `has_path_connecting(g, a, b)` is true exactly when a directed path
//!   from `a` to `b` exists, and always when `a == b`.

use vstd::prelude::*;

use crate::reach::reaches;

verus! {

/// The pass-dependency store. The graph itself is a `daggy::Dag`, opaque
/// to the verifier; `dag_nodes` and `dag_edges` name what it holds.
#[verifier::external_body]
pub struct PassDag {
    dag: daggy::Dag<(), ()>,
}

/// The number of nodes the store holds; their indices are `0..dag_nodes(d)`.
pub uninterp spec fn dag_nodes(d: PassDag) -> nat;

/// The directed edges the store holds, as `(source, target)` pairs of node
/// indices, in insertion order.
pub uninterp spec fn dag_edges(d: PassDag) -> Seq<(usize, usize)>;

/// Relies on `daggy::Dag::new`: an empty graph.
#[verifier::external_body]
pub(crate) fn dag_new() -> (d: PassDag)
    ensures
        dag_nodes(d) == 0,
        dag_edges(d) == Seq::<(usize, usize)>::empty(),
{
    PassDag { dag: daggy::Dag::new() }
}

/// Relies on `daggy::Dag::add_node` (petgraph `Graph::add_node`): appends a
/// node and returns its index, the previous count. Panics only at the index
/// type's limit, which the precondition rules out.
#[verifier::external_body]
pub(crate) fn dag_add_node(d: &mut PassDag) -> (r: usize)
    requires
        dag_nodes(*old(d)) < 0xFFFF_FFFF,
    ensures
        dag_nodes(*final(d)) == dag_nodes(*old(d)) + 1,
        dag_edges(*final(d)) == dag_edges(*old(d)),
        r == dag_nodes(*old(d)),
{
    d.dag.add_node(()).index()
}

/// Relies on `daggy::Dag::add_edge`: appends the directed edge `a -> b`.
/// It returns an error exactly when the edge would close a cycle — a path
/// from `b` back to `a` — and the precondition rules that out, so the call
/// always succeeds. Panics only on out-of-range nodes or at the index
/// type's limit, both ruled out here.
#[verifier::external_body]
pub(crate) fn dag_add_edge(d: &mut PassDag, a: usize, b: usize)
    requires
        a < dag_nodes(*old(d)),
        b < dag_nodes(*old(d)),
        dag_edges(*old(d)).len() < 0xFFFF_FFFF,
        !reaches(dag_edges(*old(d)), b, a),
    ensures
        dag_nodes(*final(d)) == dag_nodes(*old(d)),
        dag_edges(*final(d)) == dag_edges(*old(d)).push((a, b)),
{
    let _ = d.dag.add_edge(
        daggy::NodeIndex::new(a),
        daggy::NodeIndex::new(b),
        (),
    );
}

/// Relies on `daggy::Dag::raw_edges`: the edges in insertion order, each
/// carrying its endpoints.
#[verifier::external_body]
pub(crate) fn dag_edge_vec(d: &PassDag) -> (r: Vec<(usize, usize)>)
    ensures
        r@ == dag_edges(*d),
{
    d.dag.raw_edges().iter().map(|e| (e.source().index(), e.target().index())).collect()
}

/// Relies on `petgraph::algo::has_path_connecting`: true exactly when a
/// directed path from `a` to `b` exists (always when `a == b`).
#[verifier::external_body]
pub(crate) fn dag_has_path(d: &PassDag, a: usize, b: usize) -> (r: bool)
    requires
        a < dag_nodes(*d),
        b < dag_nodes(*d),
    ensures
        r == reaches(dag_edges(*d), a, b),
{
    daggy::petgraph::algo::has_path_connecting(
        d.dag.graph(),
        daggy::NodeIndex::new(a),
        daggy::NodeIndex::new(b),
        None,
    )
}

} // verus!
