//! The pass scheduler: a total execution order over the dependency graph,
//! consistent with every edge.
//!
//! The order is pinned down exactly: at every step the scheduler picks,
//! among the nodes whose dependencies are all already placed, the one
//! registered earliest — with the sink sentinel held back until the very
//! end, and the source sentinel (node 0, always ready) therefore first.
//! That makes the schedule a function of the finalized graph alone, so two
//! runs on the same graph agree.
//!
//! `run` schedules every node. `run_live` applies dead-pass elimination:
//! it keeps exactly the nodes the sink sentinel transitively depends on, so
//! a resource that is never read and never marked an output — and its
//! creator, if nothing else is read from it — simply drops out without
//! blocking anything else. Both are proved to place every kept node
//! exactly once, and never before one of its dependencies.

use vstd::prelude::*;

use vstd::seq_lib::*;
use vstd::set_lib::lemma_len_subset;
use vstd::set_lib::lemma_subset_equality;

use crate::dag::{dag_edge_vec, dag_has_path};
use crate::graph::{tag_ok, wf_model, FrameGraph, FrameModel, BOTTOM_NODE};
use crate::reach::{
    edge_ok, edges_descend, lemma_edge_reaches, lemma_reaches_trans, reaches,
};
use crate::resource::{FrameError, tag_reads_buffer, tag_reads_image};

verus! {

/// Every dependency of `v` is already placed in `done`.
pub open spec fn deps_scheduled(edges: Seq<(usize, usize)>, done: Seq<usize>, v: usize) -> bool {
    forall|j: int|
        0 <= j < edges.len() && (#[trigger] edges[j]).0 == v ==> done.contains(edges[j].1)
}

/// `v` can be placed next: it is a kept node, not yet placed, and all of
/// its dependencies are.
pub open spec fn ready(edges: Seq<(usize, usize)>, kept: Seq<bool>, done: Seq<usize>, v: usize) -> bool {
    &&& v < kept.len()
    &&& kept[v as int]
    &&& !done.contains(v)
    &&& deps_scheduled(edges, done, v)
}

/// The scan that embodies the tie-break: nodes are tried in ascending
/// registration order, skipping the sink, which is tried only after every
/// other node. Returns the first ready node at or above `v`.
pub open spec fn first_ready_from(
    edges: Seq<(usize, usize)>,
    kept: Seq<bool>,
    done: Seq<usize>,
    n: nat,
    v: nat,
) -> Option<usize>
    decreases n - v,
{
    if v >= n {
        if ready(edges, kept, done, 1) {
            Some(1usize)
        } else {
            None
        }
    } else if v != 1 && ready(edges, kept, done, v as usize) {
        Some(v as usize)
    } else {
        first_ready_from(edges, kept, done, n, v + 1)
    }
}

/// Repeatedly places the first ready node, until none is ready or the
/// fuel runs out.
pub open spec fn sched_rec(
    edges: Seq<(usize, usize)>,
    kept: Seq<bool>,
    n: nat,
    done: Seq<usize>,
    fuel: nat,
) -> Seq<usize>
    decreases fuel,
{
    if fuel == 0 {
        done
    } else {
        match first_ready_from(edges, kept, done, n, 0) {
            Some(v) => sched_rec(edges, kept, n, done.push(v), (fuel - 1) as nat),
            None => done,
        }
    }
}

/// The schedule of the kept nodes of `m`: what `run` and `run_live`
/// return.
pub open spec fn spec_schedule(m: FrameModel, kept: Seq<bool>) -> Seq<usize> {
    sched_rec(m.edges, kept, m.stages.len(), Seq::empty(), m.stages.len())
}

/// The keep-everything mask.
pub open spec fn all_kept(n: nat) -> Seq<bool> {
    Seq::new(n, |i: int| true)
}

/// The dead-pass-elimination mask: a node is kept exactly when the sink
/// sentinel transitively depends on it.
pub open spec fn live_kept(m: FrameModel) -> Seq<bool> {
    Seq::new(m.stages.len(), |v: int| reaches(m.edges, BOTTOM_NODE, v as usize))
}

/// How many nodes a mask keeps.
pub open spec fn count_true(kept: Seq<bool>) -> nat
    decreases kept.len(),
{
    if kept.len() == 0 {
        0
    } else {
        count_true(kept.drop_last()) + if kept.last() {
            1nat
        } else {
            0nat
        }
    }
}

/// The mask is closed under dependencies: every edge stays inside the
/// mask's range, and a kept node's dependencies are kept. This is the
/// scheduling contract — every kept pass has all of its dependencies also
/// kept — and what guarantees the scheduler never stalls.
pub open spec fn kept_closed(edges: Seq<(usize, usize)>, kept: Seq<bool>) -> bool {
    forall|j: int|
        0 <= j < edges.len() ==> {
            &&& (#[trigger] edges[j]).0 < kept.len()
            &&& edges[j].1 < kept.len()
            &&& (kept[edges[j].0 as int] ==> kept[edges[j].1 as int])
        }
}

/// `done` is a valid partial schedule: no node twice, only kept nodes in
/// range, and every placed node's dependencies placed before it.
pub open spec fn valid_prefix(
    edges: Seq<(usize, usize)>,
    kept: Seq<bool>,
    n: nat,
    done: Seq<usize>,
) -> bool {
    &&& done.no_duplicates()
    &&& forall|idx: int| 0 <= idx < done.len() ==> (#[trigger] done[idx]) < n
    &&& forall|idx: int| 0 <= idx < done.len() ==> kept[(#[trigger] done[idx]) as int]
    &&& forall|idx: int, j: int|
        0 <= idx < done.len() && 0 <= j < edges.len() && (#[trigger] edges[j]).0
            == (#[trigger] done[idx]) ==> done.subrange(0, idx).contains(edges[j].1)
}

/// An order respects the edges: whenever a reader is placed, its
/// dependency is placed earlier.
pub open spec fn topo_respects(edges: Seq<(usize, usize)>, ord: Seq<usize>) -> bool {
    forall|j: int|
        0 <= j < edges.len() && ord.contains((#[trigger] edges[j]).0) ==> ord.contains(
            edges[j].1,
        ) && ord.index_of(edges[j].1) < ord.index_of(edges[j].0)
}

/// The kept nodes, as a set.
pub open spec fn kept_set(kept: Seq<bool>) -> Set<usize> {
    Set::new(|v: usize| v < kept.len() && kept[v as int])
}

pub proof fn lemma_kept_set_card(kept: Seq<bool>)
    requires
        kept.len() <= usize::MAX,
    ensures
        kept_set(kept).finite(),
        kept_set(kept).len() == count_true(kept),
        count_true(kept) <= kept.len(),
    decreases kept.len(),
{
    if kept.len() == 0 {
        assert(kept_set(kept) =~= Set::<usize>::empty());
    } else {
        let k2 = kept.drop_last();
        lemma_kept_set_card(k2);
        let last = (kept.len() - 1) as usize;
        if kept.last() {
            assert(kept_set(kept) =~= kept_set(k2).insert(last));
            assert(!kept_set(k2).contains(last));
        } else {
            assert(kept_set(kept) =~= kept_set(k2));
        }
    }
}

/// A valid partial schedule never holds more nodes than the mask keeps,
/// and when it holds exactly that many, it holds every kept node.
pub proof fn lemma_prefix_card(kept: Seq<bool>, n: nat, done: Seq<usize>)
    requires
        n <= usize::MAX,
        kept.len() == n,
        done.no_duplicates(),
        forall|idx: int| 0 <= idx < done.len() ==> (#[trigger] done[idx]) < n,
        forall|idx: int| 0 <= idx < done.len() ==> kept[(#[trigger] done[idx]) as int],
    ensures
        done.len() <= count_true(kept),
        done.len() == count_true(kept) ==> forall|v: usize|
            v < n && kept[v as int] ==> done.contains(v),
{
    lemma_kept_set_card(kept);
    done.unique_seq_to_set();
    assert(done.to_set().subset_of(kept_set(kept))) by {
        assert forall|a: usize| done.to_set().contains(a) implies kept_set(kept).contains(a) by {
            assert(done.contains(a));
            let idx = choose|idx: int| 0 <= idx < done.len() && done[idx] == a;
            assert(done[idx] < n && kept[done[idx] as int]);
        }
    }
    lemma_len_subset(done.to_set(), kept_set(kept));
    if done.len() == count_true(kept) {
        lemma_subset_equality(done.to_set(), kept_set(kept));
        assert forall|v: usize| v < n && kept[v as int] implies done.contains(v) by {
            assert(kept_set(kept).contains(v));
            assert(done.to_set().contains(v));
        }
    }
}

/// What a `Some` answer of the scan means: the node is ready, and every
/// kept, unplaced, non-sink node below it (and at or above the scan's
/// start) does not exist — the answer is the earliest-registered choice.
pub proof fn lemma_first_ready_some(
    edges: Seq<(usize, usize)>,
    kept: Seq<bool>,
    done: Seq<usize>,
    n: nat,
    v0: nat,
    m: usize,
)
    requires
        n <= usize::MAX,
        first_ready_from(edges, kept, done, n, v0) == Some(m),
    ensures
        ready(edges, kept, done, m),
        m != 1 ==> v0 <= m < n,
    decreases n - v0,
{
    if v0 >= n {
    } else if v0 != 1 && ready(edges, kept, done, v0 as usize) {
    } else {
        lemma_first_ready_some(edges, kept, done, n, v0 + 1, m);
    }
}

/// What a `None` answer of the scan means: nothing at or above the scan's
/// start is ready, and neither is the sink.
pub proof fn lemma_first_ready_none(
    edges: Seq<(usize, usize)>,
    kept: Seq<bool>,
    done: Seq<usize>,
    n: nat,
    v0: nat,
)
    requires
        n <= usize::MAX,
        first_ready_from(edges, kept, done, n, v0) is None,
    ensures
        forall|w: usize| v0 <= w < n && w != 1 ==> !ready(edges, kept, done, w),
        !ready(edges, kept, done, 1),
    decreases n - v0,
{
    if v0 >= n {
    } else {
        lemma_first_ready_none(edges, kept, done, n, v0 + 1);
        assert forall|w: usize| v0 <= w < n && w != 1 implies !ready(edges, kept, done, w) by {
            if w != v0 {
                assert(v0 + 1 <= w < n);
            }
        }
    }
}

/// The scheduling recursion keeps a valid partial schedule valid, and only
/// ever appends.
pub proof fn lemma_sched_rec_valid(
    edges: Seq<(usize, usize)>,
    kept: Seq<bool>,
    n: nat,
    done: Seq<usize>,
    fuel: nat,
)
    requires
        n <= usize::MAX,
        kept.len() == n,
        valid_prefix(edges, kept, n, done),
    ensures
        valid_prefix(edges, kept, n, sched_rec(edges, kept, n, done, fuel)),
        done.is_prefix_of(sched_rec(edges, kept, n, done, fuel)),
    decreases fuel,
{
    if fuel == 0 {
        assert(done.is_prefix_of(done));
    } else {
        match first_ready_from(edges, kept, done, n, 0) {
            Some(v) => {
                lemma_first_ready_some(edges, kept, done, n, 0, v);
                let d2 = done.push(v);
                lemma_valid_prefix_push(edges, kept, n, done, v);
                lemma_sched_rec_valid(edges, kept, n, d2, (fuel - 1) as nat);
                assert(done.is_prefix_of(d2));
                let result = sched_rec(edges, kept, n, done, fuel);
                assert(result == sched_rec(edges, kept, n, d2, (fuel - 1) as nat));
                assert(d2.is_prefix_of(result));
                assert(done.is_prefix_of(result)) by {
                    assert forall|i: int| 0 <= i < done.len() implies done[i] == result[i] by {
                        assert(done[i] == d2[i]);
                        assert(d2[i] == result[i]);
                    }
                    assert(done =~= result.subrange(0, done.len() as int));
                }
            },
            None => {
                assert(done.is_prefix_of(done));
            },
        }
    }
}

/// Placing a ready node keeps a partial schedule valid.
pub proof fn lemma_valid_prefix_push(
    edges: Seq<(usize, usize)>,
    kept: Seq<bool>,
    n: nat,
    done: Seq<usize>,
    v: usize,
)
    requires
        kept.len() == n,
        valid_prefix(edges, kept, n, done),
        ready(edges, kept, done, v),
    ensures
        valid_prefix(edges, kept, n, done.push(v)),
{
    let d2 = done.push(v);
    assert forall|idx: int, j: int|
        0 <= idx < d2.len() && 0 <= j < edges.len() && (#[trigger] edges[j]).0
            == (#[trigger] d2[idx]) implies d2.subrange(0, idx).contains(edges[j].1) by {
        if idx < done.len() {
            assert(d2[idx] == done[idx]);
            assert(done.subrange(0, idx).contains(edges[j].1));
            assert(d2.subrange(0, idx) =~= done.subrange(0, idx));
        } else {
            assert(d2[idx] == v);
            assert(done.contains(edges[j].1));
            assert(d2.subrange(0, idx) =~= done);
        }
    }
}

/// Under the construction discipline and a dependency-closed mask, the
/// scheduler never stalls: the recursion places every kept node.
pub proof fn lemma_sched_rec_complete(
    edges: Seq<(usize, usize)>,
    kept: Seq<bool>,
    n: nat,
    done: Seq<usize>,
    fuel: nat,
)
    requires
        n <= usize::MAX,
        edges_descend(edges),
        kept_closed(edges, kept),
        kept.len() == n,
        valid_prefix(edges, kept, n, done),
        fuel + done.len() >= count_true(kept),
    ensures
        sched_rec(edges, kept, n, done, fuel).len() == count_true(kept),
    decreases fuel,
{
    lemma_prefix_card(kept, n, done);
    if done.len() == count_true(kept) {
        match first_ready_from(edges, kept, done, n, 0) {
            Some(v) => {
                lemma_first_ready_some(edges, kept, done, n, 0, v);
                assert(kept[v as int] && v < n && !done.contains(v));
                assert(done.contains(v));
                assert(false);
            },
            None => {},
        }
    } else {
        assert(done.len() < count_true(kept));
        let w = lemma_exists_ready(edges, kept, n, done);
        assert(ready(edges, kept, done, w));
        match first_ready_from(edges, kept, done, n, 0) {
            Some(v) => {
                lemma_first_ready_some(edges, kept, done, n, 0, v);
                lemma_valid_prefix_push(edges, kept, n, done, v);
                lemma_sched_rec_complete(edges, kept, n, done.push(v), (fuel - 1) as nat);
            },
            None => {
                lemma_first_ready_none(edges, kept, done, n, 0);
                assert(false);
            },
        }
    }
}

/// The upward scan for a kept, unplaced, non-sink node.
pub open spec fn scan_unsched(kept: Seq<bool>, done: Seq<usize>, n: nat, v: nat) -> Option<usize>
    decreases n - v,
{
    if v >= n {
        None
    } else if v != 1 && v < kept.len() && kept[v as int] && !done.contains(v as usize) {
        Some(v as usize)
    } else {
        scan_unsched(kept, done, n, v + 1)
    }
}

pub proof fn lemma_scan_unsched_some(
    kept: Seq<bool>,
    done: Seq<usize>,
    n: nat,
    v0: nat,
    m: usize,
)
    requires
        n <= usize::MAX,
        scan_unsched(kept, done, n, v0) == Some(m),
    ensures
        v0 <= m < n,
        m != 1,
        m < kept.len() && kept[m as int],
        !done.contains(m),
        forall|w: usize|
            v0 <= w < m && w != 1 && w < kept.len() && kept[w as int] ==> done.contains(w),
    decreases n - v0,
{
    if v0 >= n {
    } else if v0 != 1 && v0 < kept.len() && kept[v0 as int] && !done.contains(v0 as usize) {
    } else {
        lemma_scan_unsched_some(kept, done, n, v0 + 1, m);
        assert forall|w: usize|
            v0 <= w < m && w != 1 && w < kept.len() && kept[w as int] implies done.contains(
            w,
        ) by {
            if w != v0 {
                assert(v0 + 1 <= w);
            }
        }
    }
}

pub proof fn lemma_scan_unsched_none(kept: Seq<bool>, done: Seq<usize>, n: nat, v0: nat)
    requires
        n <= usize::MAX,
        scan_unsched(kept, done, n, v0) is None,
    ensures
        forall|w: usize|
            v0 <= w < n && w != 1 && w < kept.len() && kept[w as int] ==> done.contains(w),
    decreases n - v0,
{
    if v0 >= n {
    } else {
        lemma_scan_unsched_none(kept, done, n, v0 + 1);
        assert forall|w: usize|
            v0 <= w < n && w != 1 && w < kept.len() && kept[w as int] implies done.contains(
            w,
        ) by {
            if w != v0 {
                assert(v0 + 1 <= w);
            }
        }
    }
}

/// The heart of the no-stall argument: while some kept node is unplaced,
/// one of them is ready — the least unplaced non-sink node if one exists
/// (all of its dependencies are smaller, non-sink, kept, hence placed), and
/// otherwise the sink itself.
pub proof fn lemma_exists_ready(
    edges: Seq<(usize, usize)>,
    kept: Seq<bool>,
    n: nat,
    done: Seq<usize>,
) -> (w: usize)
    requires
        n <= usize::MAX,
        edges_descend(edges),
        kept_closed(edges, kept),
        kept.len() == n,
        valid_prefix(edges, kept, n, done),
        done.len() < count_true(kept),
    ensures
        ready(edges, kept, done, w),
{
    lemma_prefix_card(kept, n, done);
    match scan_unsched(kept, done, n, 0) {
        Some(m) => {
            lemma_scan_unsched_some(kept, done, n, 0, m);
            assert forall|j: int|
                0 <= j < edges.len() && (#[trigger] edges[j]).0 == m implies done.contains(
                edges[j].1,
            ) by {
                assert(edge_ok(edges[j]));
                let t = edges[j].1;
                assert(t < m && t != 1);
                assert(kept[t as int]);
            }
            m
        },
        None => {
            lemma_scan_unsched_none(kept, done, n, 0);
            // every kept non-sink node is placed, so the unplaced kept node
            // is the sink
            assert(exists|v: usize| v < n && kept[v as int] && !done.contains(v)) by {
                if forall|v: usize| v < n && kept[v as int] ==> done.contains(v) {
                    lemma_count_true_all_done(kept, n, done);
                }
            }
            let v = choose|v: usize| v < n && kept[v as int] && !done.contains(v);
            assert(v == 1);
            assert forall|j: int|
                0 <= j < edges.len() && (#[trigger] edges[j]).0 == 1usize implies done.contains(
                edges[j].1,
            ) by {
                assert(edge_ok(edges[j]));
                let t = edges[j].1;
                assert(t != 1 && t < n);
                assert(kept[t as int]);
            }
            1usize
        },
    }
}

/// If every kept node is placed in a duplicate-free partial schedule, the
/// schedule is not shorter than the kept count.
proof fn lemma_count_true_all_done(kept: Seq<bool>, n: nat, done: Seq<usize>)
    requires
        n <= usize::MAX,
        kept.len() == n,
        done.no_duplicates(),
        forall|idx: int| 0 <= idx < done.len() ==> (#[trigger] done[idx]) < n,
        forall|idx: int| 0 <= idx < done.len() ==> kept[(#[trigger] done[idx]) as int],
        forall|v: usize| v < n && kept[v as int] ==> done.contains(v),
    ensures
        done.len() >= count_true(kept),
{
    lemma_kept_set_card(kept);
    done.unique_seq_to_set();
    assert(kept_set(kept).subset_of(done.to_set())) by {
        assert forall|a: usize| kept_set(kept).contains(a) implies done.to_set().contains(a) by {
            assert(a < n && kept[a as int]);
            assert(done.contains(a));
        }
    }
    lemma_len_subset(kept_set(kept), done.to_set());
}

/// A full mask is closed under dependencies whenever the edges stay in
/// range.
pub proof fn lemma_all_kept_closed(edges: Seq<(usize, usize)>, n: nat)
    requires
        forall|j: int|
            0 <= j < edges.len() ==> (#[trigger] edges[j]).0 < n && edges[j].1 < n,
    ensures
        kept_closed(edges, all_kept(n)),
        count_true(all_kept(n)) == n,
{
    lemma_count_all_kept(n);
}

/// A full mask keeps every node.
pub proof fn lemma_count_all_kept(n: nat)
    ensures
        count_true(all_kept(n)) == n,
    decreases n,
{
    if n > 0 {
        lemma_count_all_kept((n - 1) as nat);
        assert(all_kept(n).drop_last() =~= all_kept((n - 1) as nat));
    }
}

/// The live mask — keep what the sink transitively depends on — is closed
/// under dependencies: every kept pass has all of its dependencies also
/// kept. This is the dead-pass-elimination guarantee: dropping the
/// unreachable passes never drops a dependency of a kept one.
pub proof fn lemma_live_kept_closed(m: FrameModel)
    requires
        wf_model(m),
    ensures
        kept_closed(m.edges, live_kept(m)),
{
    assert forall|j: int| 0 <= j < m.edges.len() implies {
        &&& (#[trigger] m.edges[j]).0 < live_kept(m).len()
        &&& m.edges[j].1 < live_kept(m).len()
        &&& (live_kept(m)[m.edges[j].0 as int] ==> live_kept(m)[m.edges[j].1 as int])
    } by {
        if live_kept(m)[m.edges[j].0 as int] {
            lemma_edge_reaches(m.edges, m.edges[j].0, m.edges[j].1);
            lemma_reaches_trans(m.edges, BOTTOM_NODE, m.edges[j].0, m.edges[j].1);
        }
    }
}

/// A schedule built by the recursion respects the edges: every placed
/// node's dependencies are placed earlier.
pub proof fn lemma_valid_prefix_topo(edges: Seq<(usize, usize)>, kept: Seq<bool>, n: nat, ord: Seq<usize>)
    requires
        valid_prefix(edges, kept, n, ord),
    ensures
        topo_respects(edges, ord),
{
    assert forall|j: int|
        0 <= j < edges.len() && ord.contains((#[trigger] edges[j]).0) implies ord.contains(
        edges[j].1,
    ) && ord.index_of(edges[j].1) < ord.index_of(edges[j].0) by {
        let idx = choose|idx: int| 0 <= idx < ord.len() && ord[idx] == edges[j].0;
        assert(ord.subrange(0, idx).contains(edges[j].1));
        let p = choose|p: int| 0 <= p < idx && ord.subrange(0, idx)[p] == edges[j].1;
        assert(ord[p] == edges[j].1);
        assert(ord.contains(edges[j].1));
        let i1 = ord.index_of(edges[j].1);
        let i0 = ord.index_of(edges[j].0);
        assert(0 <= i1 < ord.len() && ord[i1] == edges[j].1);
        assert(0 <= i0 < ord.len() && ord[i0] == edges[j].0);
        assert(i0 == idx);
        assert(i1 == p);
    }
}


fn deps_done_exec(
    ev: &Vec<(usize, usize)>,
    flags: &Vec<bool>,
    v: usize,
    Ghost(done): Ghost<Seq<usize>>,
) -> (r: bool)
    requires
        forall|j: int| 0 <= j < ev@.len() ==> (#[trigger] ev@[j]).1 < flags@.len(),
        forall|w: int| 0 <= w < flags@.len() ==> flags@[w] == done.contains(w as usize),
    ensures
        r == deps_scheduled(ev@, done, v),
{
    let mut j: usize = 0;
    while j < ev.len()
        invariant
            j <= ev@.len(),
            forall|k: int| 0 <= k < ev@.len() ==> (#[trigger] ev@[k]).1 < flags@.len(),
            forall|w: int| 0 <= w < flags@.len() ==> flags@[w] == done.contains(w as usize),
            forall|k: int|
                0 <= k < j ==> ((#[trigger] ev@[k]).0 == v ==> done.contains(ev@[k].1)),
        decreases ev@.len() - j,
    {
        let e = ev[j];
        if e.0 == v && !flags[e.1] {
            proof {
                assert(!done.contains(ev@[j as int].1));
            }
            return false;
        }
        j += 1;
    }
    true
}

fn find_first_ready(
    ev: &Vec<(usize, usize)>,
    kept: &Vec<bool>,
    flags: &Vec<bool>,
    Ghost(done): Ghost<Seq<usize>>,
) -> (r: Option<usize>)
    requires
        flags@.len() == kept@.len(),
        forall|j: int| 0 <= j < ev@.len() ==> (#[trigger] ev@[j]).1 < flags@.len(),
        forall|w: int| 0 <= w < flags@.len() ==> flags@[w] == done.contains(w as usize),
    ensures
        r == first_ready_from(ev@, kept@, done, kept@.len() as nat, 0),
{
    let n = kept.len();
    let mut v: usize = 0;
    while v < n
        invariant
            v <= n,
            n == kept@.len(),
            flags@.len() == n,
            forall|j: int| 0 <= j < ev@.len() ==> (#[trigger] ev@[j]).1 < flags@.len(),
            forall|w: int| 0 <= w < flags@.len() ==> flags@[w] == done.contains(w as usize),
            first_ready_from(ev@, kept@, done, n as nat, 0) == first_ready_from(
                ev@,
                kept@,
                done,
                n as nat,
                v as nat,
            ),
        decreases n - v,
    {
        if v != 1 {
            let is_kept = kept[v];
            let placed = flags[v];
            if is_kept && !placed {
                let deps = deps_done_exec(ev, flags, v, Ghost(done));
                if deps {
                    proof {
                        assert(ready(ev@, kept@, done, v));
                    }
                    return Some(v);
                }
            }
            proof {
                assert(!ready(ev@, kept@, done, v));
            }
        }
        v += 1;
    }
    if n > 1 {
        let is_kept = kept[1];
        let placed = flags[1];
        if is_kept && !placed {
            let deps = deps_done_exec(ev, flags, 1, Ghost(done));
            if deps {
                proof {
                    assert(ready(ev@, kept@, done, 1));
                }
                return Some(1);
            }
        }
        proof {
            assert(!ready(ev@, kept@, done, 1));
        }
    }
    None
}

fn schedule_kept(frame: &FrameGraph, kept: &Vec<bool>) -> (r: Result<Vec<usize>, FrameError>)
    requires
        frame.wf(),
        kept@.len() == frame@.stages.len(),
    ensures
        r matches Ok(v) ==> v@ == spec_schedule(frame@, kept@) && v@.len() == count_true(kept@)
            && valid_prefix(frame@.edges, kept@, frame@.stages.len(), v@),
        r matches Err(e) ==> e == FrameError::GraphCycle,
        kept_closed(frame@.edges, kept@) ==> r is Ok,
{
    proof {
        frame.lemma_parts();
    }
    let n = frame.stages.len();
    let ghost edges = frame@.edges;
    let ev = dag_edge_vec(&frame.dag);
    proof {
        assert forall|j: int| 0 <= j < ev@.len() implies (#[trigger] ev@[j]).1 < n by {
            assert(ev@[j] == frame@.edges[j]);
        }
    }
    let mut flags: Vec<bool> = Vec::new();
    let mut k: usize = 0;
    while k < n
        invariant
            k <= n,
            flags@.len() == k,
            forall|w: int| 0 <= w < k ==> !flags@[w],
        decreases n - k,
    {
        flags.push(false);
        k += 1;
    }
    let mut kcount: usize = 0;
    let mut k2: usize = 0;
    while k2 < n
        invariant
            k2 <= n,
            n == kept@.len(),
            kcount <= k2,
            kcount == count_true(kept@.subrange(0, k2 as int)),
        decreases n - k2,
    {
        proof {
            assert(kept@.subrange(0, k2 as int + 1).drop_last() =~= kept@.subrange(
                0,
                k2 as int,
            ));
            assert(kept@.subrange(0, k2 as int + 1).last() == kept@[k2 as int]);
        }
        if kept[k2] {
            kcount += 1;
        }
        k2 += 1;
    }
    proof {
        assert(kept@.subrange(0, n as int) =~= kept@);
    }
    let mut order: Vec<usize> = Vec::new();
    let mut it: usize = 0;
    let mut stalled = false;
    while it < n && !stalled
        invariant
            it <= n,
            n == kept@.len(),
            n == frame@.stages.len(),
            ev@ == frame@.edges,
            flags@.len() == n,
            forall|j: int| 0 <= j < ev@.len() ==> (#[trigger] ev@[j]).1 < n,
            forall|w: int| 0 <= w < n ==> flags@[w] == order@.contains(w as usize),
            !stalled ==> order@.len() == it && sched_rec(ev@, kept@, n as nat, Seq::empty(), n as nat)
                == sched_rec(ev@, kept@, n as nat, order@, (n - it) as nat),
            stalled ==> sched_rec(ev@, kept@, n as nat, Seq::empty(), n as nat) == order@,
        decreases n - it,
    {
        match find_first_ready(&ev, kept, &flags, Ghost(order@)) {
            Some(v) => {
                proof {
                    lemma_first_ready_some(ev@, kept@, order@, n as nat, 0, v);
                    assert(v < n);
                    assert(sched_rec(ev@, kept@, n as nat, order@, (n - it) as nat)
                        == sched_rec(
                        ev@,
                        kept@,
                        n as nat,
                        order@.push(v),
                        (n - it - 1) as nat,
                    ));
                }
                let ghost old_order = order@;
                flags.set(v, true);
                order.push(v);
                proof {
                    assert(order@ == old_order.push(v));
                    assert(order@[old_order.len() as int] == v);
                    assert forall|w: int| 0 <= w < n implies flags@[w] == order@.contains(
                        w as usize,
                    ) by {
                        if w == v {
                            assert(order@.contains(v));
                        } else {
                            if old_order.contains(w as usize) {
                                let i = choose|i: int|
                                    0 <= i < old_order.len() && old_order[i] == w as usize;
                                assert(order@[i] == w as usize);
                                assert(order@.contains(w as usize));
                            }
                            if order@.contains(w as usize) {
                                let i = choose|i: int|
                                    0 <= i < order@.len() && order@[i] == w as usize;
                                assert(i < old_order.len());
                                assert(old_order.contains(w as usize));
                            }
                        }
                    }
                }
            },
            None => {
                proof {
                    assert(sched_rec(ev@, kept@, n as nat, order@, (n - it) as nat) == order@);
                }
                stalled = true;
            },
        }
        it += 1;
    }
    proof {
        if !stalled {
            assert(it == n);
            assert(sched_rec(ev@, kept@, n as nat, order@, 0nat) == order@);
        }
        assert(spec_schedule(frame@, kept@) == order@);
        lemma_sched_rec_valid(ev@, kept@, n as nat, Seq::empty(), n as nat);
        assert(valid_prefix(frame@.edges, kept@, n as nat, order@));
        if kept_closed(frame@.edges, kept@) {
            lemma_sched_rec_complete(ev@, kept@, n as nat, Seq::empty(), n as nat);
            lemma_kept_set_card(kept@);
        }
    }
    if order.len() == kcount {
        Ok(order)
    } else {
        Err(FrameError::GraphCycle)
    }
}

/// Computes the execution schedule over every node of the finalized
/// frame, sentinels included: the unique order that always places the
/// earliest-registered ready node next, with the source sentinel first
/// and the sink sentinel last. Pure with respect to the frame: the result
/// is a function of the graph alone, so repeated runs agree.
pub fn run(frame: &FrameGraph) -> (r: Result<Vec<usize>, FrameError>)
    requires
        frame.wf(),
    ensures
        r is Ok,
        r matches Ok(v) ==> {
            &&& v@ == spec_schedule(frame@, all_kept(frame@.stages.len()))
            &&& v@.len() == frame@.stages.len()
            &&& valid_prefix(
                frame@.edges,
                all_kept(frame@.stages.len()),
                frame@.stages.len(),
                v@,
            )
        },
{
    proof {
        frame.lemma_parts();
    }
    let n = frame.stages.len();
    let mut kept: Vec<bool> = Vec::new();
    let mut k: usize = 0;
    while k < n
        invariant
            k <= n,
            kept@.len() == k,
            forall|w: int| 0 <= w < k ==> kept@[w],
        decreases n - k,
    {
        kept.push(true);
        k += 1;
    }
    proof {
        assert(kept@ =~= all_kept(n as nat));
        lemma_all_kept_closed(frame@.edges, n as nat);
    }
    schedule_kept(frame, &kept)
}

/// Computes the execution schedule with dead-pass elimination: only the
/// nodes the sink sentinel transitively depends on are kept — a pass
/// whose outputs are never read and never marked as frame outputs drops
/// out, together with anything only it depended on — and every kept
/// node is still placed after all of its dependencies, in the same
/// earliest-registered-first order.
pub fn run_live(frame: &FrameGraph) -> (r: Result<Vec<usize>, FrameError>)
    requires
        frame.wf(),
    ensures
        r is Ok,
        r matches Ok(v) ==> {
            &&& v@ == spec_schedule(frame@, live_kept(frame@))
            &&& v@.len() == count_true(live_kept(frame@))
            &&& valid_prefix(frame@.edges, live_kept(frame@), frame@.stages.len(), v@)
        },
{
    proof {
        frame.lemma_parts();
    }
    let n = frame.stages.len();
    let mut kept: Vec<bool> = Vec::new();
    let mut k: usize = 0;
    while k < n
        invariant
            frame.wf(),
            k <= n,
            n == frame@.stages.len(),
            kept@.len() == k,
            forall|w: int| 0 <= w < k ==> kept@[w] == reaches(frame@.edges, BOTTOM_NODE, w as usize),
        decreases n - k,
    {
        proof {
            frame.lemma_parts();
        }
        let reachable = dag_has_path(&frame.dag, BOTTOM_NODE, k);
        kept.push(reachable);
        k += 1;
    }
    proof {
        assert(kept@ =~= live_kept(frame@));
        lemma_live_kept_closed(frame@);
    }
    schedule_kept(frame, &kept)
}

/// Determinism of the scheduler: the schedule is a function of the
/// finalized graph and the kept mask alone, so any two results of it on
/// the same frame are the same ordering.
pub proof fn lemma_schedule_deterministic(
    m: FrameModel,
    kept: Seq<bool>,
    r1: Seq<usize>,
    r2: Seq<usize>,
)
    requires
        r1 == spec_schedule(m, kept),
        r2 == spec_schedule(m, kept),
    ensures
        r1 == r2,
{
}

/// Any schedule the recursion produces respects every edge: a placed
/// reader is placed after its dependency.
pub proof fn lemma_schedule_topo(m: FrameModel, kept: Seq<bool>)
    requires
        kept.len() == m.stages.len(),
        m.stages.len() <= usize::MAX,
    ensures
        spec_schedule(m, kept).no_duplicates(),
        topo_respects(m.edges, spec_schedule(m, kept)),
{
    lemma_sched_rec_valid(m.edges, kept, m.stages.len(), Seq::empty(), m.stages.len());
    lemma_valid_prefix_topo(
        m.edges,
        kept,
        m.stages.len(),
        spec_schedule(m, kept),
    );
}

/// In any duplicate-free order that respects the edges, a version's
/// creator is placed strictly before every pass that reads or copies
/// from that version — for buffers.
pub proof fn lemma_buffer_creator_precedes(m: FrameModel, ord: Seq<usize>, j: int, i: usize)
    requires
        wf_model(m),
        ord.no_duplicates(),
        topo_respects(m.edges, ord),
        0 <= j < m.tags.len(),
        i < m.buffers.len(),
        tag_reads_buffer(m.tags[j], i),
        ord.contains(m.edges[j].0),
    ensures
        ord.contains(m.buffers[i as int].creator),
        ord.index_of(m.buffers[i as int].creator) < ord.index_of(m.edges[j].0),
{
    assert(tag_ok(m, j));
    assert(m.buffers[i as int].creator == m.edges[j].1);
}

/// In any duplicate-free order that respects the edges, a version's
/// creator is placed strictly before every pass that reads or copies
/// from that version — for images.
pub proof fn lemma_image_creator_precedes(m: FrameModel, ord: Seq<usize>, j: int, i: usize)
    requires
        wf_model(m),
        ord.no_duplicates(),
        topo_respects(m.edges, ord),
        0 <= j < m.tags.len(),
        i < m.images.len(),
        tag_reads_image(m.tags[j], i),
        ord.contains(m.edges[j].0),
    ensures
        ord.contains(m.images[i as int].creator),
        ord.index_of(m.images[i as int].creator) < ord.index_of(m.edges[j].0),
{
    assert(tag_ok(m, j));
    assert(m.images[i as int].creator == m.edges[j].1);
}


} // verus!
