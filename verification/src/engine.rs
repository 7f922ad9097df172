//! The driver that consumes a finalized frame: it computes the execution
//! plan a command recorder walks — the scheduled passes, each with its
//! classification.

use vstd::prelude::*;

use crate::graph::{FrameGraph, FrameModel};
use crate::resource::{FrameStage, PassRef};
use crate::schedule::{all_kept, run, spec_schedule};

verus! {

/// Owns one finalized frame and hands out its execution plan.
pub struct Engine {
    frame: FrameGraph,
}

impl View for Engine {
    type V = FrameModel;

    closed spec fn view(&self) -> FrameModel {
        self.frame@
    }
}

impl Engine {
    /// The owned frame is well-formed.
    pub closed spec fn wf(self) -> bool {
        self.frame.wf()
    }

    /// Takes ownership of a finalized frame.
    pub fn new(frame: FrameGraph) -> (r: Engine)
        requires
            frame.wf(),
        ensures
            r.wf(),
            r@ == frame@,
    {
        Engine { frame }
    }

    /// The owned frame, read-only.
    pub fn frame(&self) -> (r: &FrameGraph)
        ensures
            r@ == self@,
            self.wf() ==> r.wf(),
    {
        &self.frame
    }

    /// The execution plan: every node of the frame in scheduled order,
    /// paired with its classification. A recorder walks this list and
    /// records each registered pass exactly once, in an order consistent
    /// with every dependency.
    pub fn run(&self) -> (r: Vec<(PassRef, FrameStage)>)
        requires
            self.wf(),
        ensures
            r@.len() == self@.stages.len(),
            forall|k: int|
                0 <= k < r@.len() ==> #[trigger] r@[k] == (
                    PassRef(spec_schedule(self@, all_kept(self@.stages.len()))[k]),
                    self@.stages[spec_schedule(self@, all_kept(self@.stages.len()))[k] as int],
                ),
    {
        let order = match run(&self.frame) {
            Ok(order) => order,
            Err(_) => {
                proof {
                    assert(false);
                }
                Vec::new()
            },
        };
        let mut plan: Vec<(PassRef, FrameStage)> = Vec::new();
        let mut k: usize = 0;
        while k < order.len()
            invariant
                self.wf(),
                k <= order.len(),
                order@ == spec_schedule(self@, all_kept(self@.stages.len())),
                order@.len() == self@.stages.len(),
                forall|idx: int| 0 <= idx < order@.len() ==> (#[trigger] order@[idx]) < self@.stages.len(),
                plan@.len() == k,
                forall|idx: int|
                    0 <= idx < k ==> #[trigger] plan@[idx] == (
                        PassRef(order@[idx]),
                        self@.stages[order@[idx] as int],
                    ),
            decreases order.len() - k,
        {
            let v = order[k];
            let stage = match self.frame.pass_stage(&PassRef(v)) {
                Ok(stage) => stage,
                Err(_) => {
                    proof {
                        assert(false);
                    }
                    FrameStage::Invalid
                },
            };
            plan.push((PassRef(v), stage));
            k += 1;
        }
        plan
    }
}

} // verus!
