//! The Graph Frame: the per-frame aggregate of pass nodes, dependency
//! edges, and the registry of resource versions.
//!
//! A frame starts with the two sentinel nodes — the source (node 0), which
//! stands for externally supplied inputs, and the sink (node 1), which
//! stands for externally consumed outputs — and grows strictly
//! monotonically: nodes and edges are only ever appended.
//!
//! Every edge points from a reader or writer pass back to the creator of
//! the version it touches, so edges always lead from a later node to an
//! earlier one (or leave the sink). That construction discipline — stated
//! as `wf_model` and preserved by every operation — is what makes the
//! dependency graph acyclic, which `lemma_dependency_graph_acyclic` states
//! once and for all.

use vstd::prelude::*;

use crate::dag::{
    dag_add_edge, dag_add_node, dag_edge_vec, dag_edges, dag_new, dag_nodes, PassDag,
};
use crate::reach::{
    acyclic, edge_ok, edges_descend, lemma_descending_acyclic, lemma_path_descends, reaches,
};
use crate::resource::{
    BufferInfo, BufferRef, BufferResource, FrameError, FrameStage, ImageInfo, ImageRef,
    ImageResource, ImageWrite, PassDependency, ResourceConsumer, ResourceCreator, ResourceId,
    ResourceHandle,
};

verus! {

/// The mathematical content of one Graph Frame.
pub struct FrameModel {
    /// Identity of this frame; references carry it.
    pub frame_id: u64,
    /// One entry per graph node: sentinel, pass classification, or the
    /// placeholder of a node whose builder session is still open.
    pub stages: Seq<FrameStage>,
    /// Dependency edges `(reader, creator)`, in insertion order.
    pub edges: Seq<(usize, usize)>,
    /// One payload per edge, aligned with `edges`.
    pub tags: Seq<PassDependency>,
    /// All buffer versions, in creation order.
    pub buffers: Seq<BufferResource>,
    /// All image versions, in creation order.
    pub images: Seq<ImageResource>,
}

/// The edge payload at position `j` is consistent: the version it names
/// exists, and the edge really points at that version's creator.
pub open spec fn tag_ok(m: FrameModel, j: int) -> bool {
    match m.tags[j] {
        PassDependency::ReadBuffer(i) => {
            &&& i < m.buffers.len()
            &&& m.buffers[i as int].creator == m.edges[j].1
        },
        PassDependency::ReadImage(i, _) => {
            &&& i < m.images.len()
            &&& m.images[i as int].creator == m.edges[j].1
        },
        PassDependency::CopyBuffer(i, k) => {
            &&& i < m.buffers.len()
            &&& k < m.buffers.len()
            &&& m.buffers[i as int].creator == m.edges[j].1
            &&& m.buffers[k as int].creator == m.edges[j].0
            &&& m.buffers[k as int].info == m.buffers[i as int].info
        },
        PassDependency::CopyImage(i, k) => {
            &&& i < m.images.len()
            &&& k < m.images.len()
            &&& m.images[i as int].creator == m.edges[j].1
            &&& m.images[k as int].creator == m.edges[j].0
            &&& m.images[k as int].info == m.images[i as int].info
        },
    }
}

/// A creator node index is a real node and never the sink.
pub open spec fn creator_ok(m: FrameModel, c: usize) -> bool {
    &&& c < m.stages.len()
    &&& c != 1
}

/// Well-formedness of a Graph Frame: the two sentinels are in place, every
/// edge obeys the descending construction discipline and stays inside the
/// node range, every edge payload names an existing version created by the
/// edge's target, and every version's creator is a real, non-sink node.
pub open spec fn wf_model(m: FrameModel) -> bool {
    &&& m.stages.len() >= 2
    &&& m.stages[0] == FrameStage::Top
    &&& m.stages[1] == FrameStage::Bottom
    &&& edges_descend(m.edges)
    &&& forall|j: int|
        0 <= j < m.edges.len() ==> (#[trigger] m.edges[j]).0 < m.stages.len() && m.edges[j].1
            < m.stages.len()
    &&& m.tags.len() == m.edges.len()
    &&& forall|j: int| 0 <= j < m.tags.len() ==> tag_ok(m, j)
    &&& forall|i: int|
        0 <= i < m.buffers.len() ==> creator_ok(m, (#[trigger] m.buffers[i]).creator)
    &&& forall|i: int| 0 <= i < m.images.len() ==> creator_ok(m, (#[trigger] m.images[i]).creator)
}

/// The node index of the graph source sentinel.
pub const TOP_NODE: usize = 0;

/// The node index of the graph sink sentinel.
pub const BOTTOM_NODE: usize = 1;

/// One Graph Frame: the append-only store of pass nodes, dependency edges
/// and resource versions built up over one graph-building session.
pub struct FrameGraph {
    pub(crate) dag: PassDag,
    pub(crate) stages: Vec<FrameStage>,
    pub(crate) tags: Vec<PassDependency>,
    pub(crate) buffers: Vec<BufferResource>,
    pub(crate) images: Vec<ImageResource>,
    pub(crate) frame_id: u64,
}

impl View for FrameGraph {
    type V = FrameModel;

    closed spec fn view(&self) -> FrameModel {
        FrameModel {
            frame_id: self.frame_id,
            stages: self.stages@,
            edges: dag_edges(self.dag),
            tags: self.tags@,
            buffers: self.buffers@,
            images: self.images@,
        }
    }
}

impl FrameGraph {
    /// Well-formedness: the model invariant, plus agreement between the
    /// node store and the stage table.
    pub closed spec fn wf(self) -> bool {
        &&& wf_model(self@)
        &&& self.stages@.len() == dag_nodes(self.dag)
    }

    /// Well-formedness of the whole frame implies well-formedness of its
    /// model.
    pub proof fn lemma_wf_model(self)
        requires
            self.wf(),
        ensures
            wf_model(self@),
    {
    }

    /// How the model is laid over the fields; for the crate's own modules.
    pub(crate) proof fn lemma_parts(self)
        ensures
            self@.frame_id == self.frame_id,
            self@.stages == self.stages@,
            self@.edges == dag_edges(self.dag),
            self@.tags == self.tags@,
            self@.buffers == self.buffers@,
            self@.images == self.images@,
            self.wf() ==> wf_model(self@) && self.stages@.len() == dag_nodes(self.dag),
    {
    }

    /// Well-formedness from the parts; for the crate's own modules.
    pub(crate) proof fn lemma_wf_intro(self)
        requires
            wf_model(self@),
            self.stages@.len() == dag_nodes(self.dag),
        ensures
            self.wf(),
    {
    }

    /// A fresh, empty frame with identity 0: only the two sentinels.
    ///
    /// Every frame made this way carries the same identity, so two such
    /// frames accept each other's in-range references; the cross-frame
    /// `DanglingReference` guarantee needs frames with distinct
    /// identities, made by `with_frame_id`.
    pub fn new() -> (g: FrameGraph)
        ensures
            g.wf(),
            g@.frame_id == 0,
            g@.stages == seq![FrameStage::Top, FrameStage::Bottom],
            g@.edges == Seq::<(usize, usize)>::empty(),
            g@.tags == Seq::<PassDependency>::empty(),
            g@.buffers == Seq::<BufferResource>::empty(),
            g@.images == Seq::<ImageResource>::empty(),
    {
        Self::with_frame_id(0)
    }

    /// A fresh, empty frame carrying the given identity. References made by
    /// this frame carry the same identity and are rejected by any frame
    /// with a different one — the identity check can only tell frames
    /// apart when the caller gives each frame its own identity.
    pub fn with_frame_id(frame_id: u64) -> (g: FrameGraph)
        ensures
            g.wf(),
            g@.frame_id == frame_id,
            g@.stages == seq![FrameStage::Top, FrameStage::Bottom],
            g@.edges == Seq::<(usize, usize)>::empty(),
            g@.tags == Seq::<PassDependency>::empty(),
            g@.buffers == Seq::<BufferResource>::empty(),
            g@.images == Seq::<ImageResource>::empty(),
    {
        let mut dag = dag_new();
        let top = dag_add_node(&mut dag);
        let bottom = dag_add_node(&mut dag);
        let mut stages: Vec<FrameStage> = Vec::new();
        stages.push(FrameStage::Top);
        stages.push(FrameStage::Bottom);
        let g = FrameGraph {
            dag,
            stages,
            tags: Vec::new(),
            buffers: Vec::new(),
            images: Vec::new(),
            frame_id,
        };
        proof {
            assert(g@.stages =~= seq![FrameStage::Top, FrameStage::Bottom]);
        }
        g
    }

    /// The identity this frame stamps on the references it hands out.
    pub fn frame_id(&self) -> (r: u64)
        ensures
            r == self@.frame_id,
    {
        self.frame_id
    }

    /// How many nodes the dependency graph holds, sentinels included.
    pub fn pass_count(&self) -> (r: usize)
        ensures
            r == self@.stages.len(),
    {
        self.stages.len()
    }

    /// References to every node of the graph, sentinels included, in
    /// registration order.
    pub fn pass_refs(&self) -> (r: Vec<PassRef>)
        ensures
            r@.len() == self@.stages.len(),
            forall|k: int| 0 <= k < r@.len() ==> #[trigger] r@[k] == PassRef(k as usize),
    {
        let mut r: Vec<PassRef> = Vec::new();
        let mut k: usize = 0;
        while k < self.stages.len()
            invariant
                k <= self.stages@.len(),
                self@.stages == self.stages@,
                r@.len() == k,
                forall|i: int| 0 <= i < k ==> #[trigger] r@[i] == PassRef(i as usize),
            decreases self.stages@.len() - k,
        {
            r.push(PassRef(k));
            k += 1;
        }
        r
    }

    /// The classification of one node.
    pub fn pass_stage(&self, p: &PassRef) -> (r: Result<FrameStage, FrameError>)
        ensures
            p.0 < self@.stages.len() ==> r == Ok::<FrameStage, FrameError>(
                self@.stages[p.0 as int],
            ),
            p.0 >= self@.stages.len() ==> r == Err::<FrameStage, FrameError>(
                FrameError::InvalidReference,
            ),
    {
        if p.0 < self.stages.len() {
            Ok(self.stages[p.0])
        } else {
            Err(FrameError::InvalidReference)
        }
    }

    /// How many buffer versions the registry holds.
    pub fn buffer_count(&self) -> (r: usize)
        ensures
            r == self@.buffers.len(),
    {
        self.buffers.len()
    }

    /// How many image versions the registry holds.
    pub fn image_count(&self) -> (r: usize)
        ensures
            r == self@.images.len(),
    {
        self.images.len()
    }

    /// Constant-time lookup of one buffer version. Fails with
    /// `DanglingReference` on a reference another frame made, and with
    /// `InvalidReference` on an index outside the registry.
    pub fn get_buffer(&self, b: &BufferRef) -> (r: Result<&BufferResource, FrameError>)
        ensures
            b.frame != self@.frame_id ==> r == Err::<&BufferResource, FrameError>(
                FrameError::DanglingReference,
            ),
            b.frame == self@.frame_id && b.id.0 >= self@.buffers.len() ==> r == Err::<
                &BufferResource,
                FrameError,
            >(FrameError::InvalidReference),
            b.frame == self@.frame_id && b.id.0 < self@.buffers.len() ==> (r matches Ok(br)
                && *br == self@.buffers[b.id.0 as int]),
    {
        if b.frame != self.frame_id {
            Err(FrameError::DanglingReference)
        } else if b.id.0 >= self.buffers.len() {
            Err(FrameError::InvalidReference)
        } else {
            Ok(&self.buffers[b.id.0])
        }
    }

    /// Constant-time lookup of one image version, with the same failure
    /// conditions as `get_buffer`.
    pub fn get_image(&self, i: &ImageRef) -> (r: Result<&ImageResource, FrameError>)
        ensures
            i.frame != self@.frame_id ==> r == Err::<&ImageResource, FrameError>(
                FrameError::DanglingReference,
            ),
            i.frame == self@.frame_id && i.id.0 >= self@.images.len() ==> r == Err::<
                &ImageResource,
                FrameError,
            >(FrameError::InvalidReference),
            i.frame == self@.frame_id && i.id.0 < self@.images.len() ==> (r matches Ok(ir)
                && *ir == self@.images[i.id.0 as int]),
    {
        if i.frame != self.frame_id {
            Err(FrameError::DanglingReference)
        } else if i.id.0 >= self.images.len() {
            Err(FrameError::InvalidReference)
        } else {
            Ok(&self.images[i.id.0])
        }
    }

    /// The dependency edges with their payloads, in insertion order:
    /// `(reader node, creator node, payload)`.
    pub fn dependency_edges(&self) -> (r: Vec<(usize, usize, PassDependency)>)
        requires
            self.wf(),
        ensures
            r@.len() == self@.edges.len(),
            forall|j: int|
                0 <= j < r@.len() ==> #[trigger] r@[j] == (
                    self@.edges[j].0,
                    self@.edges[j].1,
                    self@.tags[j],
                ),
    {
        let ev = dag_edge_vec(&self.dag);
        let mut r: Vec<(usize, usize, PassDependency)> = Vec::new();
        let mut j: usize = 0;
        while j < ev.len()
            invariant
                self.wf(),
                ev@ == self@.edges,
                j <= ev.len(),
                r@.len() == j,
                forall|k: int|
                    0 <= k < j ==> #[trigger] r@[k] == (
                        self@.edges[k].0,
                        self@.edges[k].1,
                        self@.tags[k],
                    ),
            decreases ev.len() - j,
        {
            let (f, t) = ev[j];
            r.push((f, t, self.tags[j]));
            j += 1;
        }
        r
    }

    /// Registers an externally supplied buffer: a version whose creator is
    /// the graph source sentinel.
    pub fn add_input_buffer(&mut self, info: BufferInfo) -> (r: BufferRef)
        requires
            old(self).wf(),
        ensures
            final(self).wf(),
            final(self)@.buffers == old(self)@.buffers.push(
                BufferResource { info, creator: TOP_NODE, consumer: None },
            ),
            final(self)@.frame_id == old(self)@.frame_id,
            final(self)@.stages == old(self)@.stages,
            final(self)@.edges == old(self)@.edges,
            final(self)@.tags == old(self)@.tags,
            final(self)@.images == old(self)@.images,
            r == (BufferRef { frame: old(self)@.frame_id, id: ResourceId(old(self)@.buffers.len() as usize) }),
    {
        let id = self.buffers.len();
        self.buffers.push(BufferResource { info, creator: TOP_NODE, consumer: None });
        proof {
            lemma_wf_push_buffer(old(self)@, self@);
        }
        BufferRef { frame: self.frame_id, id: ResourceId(id) }
    }

    /// Registers an externally supplied image: a version whose creator is
    /// the graph source sentinel.
    pub fn add_input_image(&mut self, info: ImageInfo) -> (r: ImageRef)
        requires
            old(self).wf(),
        ensures
            final(self).wf(),
            final(self)@.images == old(self)@.images.push(
                ImageResource {
                    info,
                    creator: TOP_NODE,
                    consumer: None,
                    write_type: ImageWrite::Transfer,
                },
            ),
            final(self)@.frame_id == old(self)@.frame_id,
            final(self)@.stages == old(self)@.stages,
            final(self)@.edges == old(self)@.edges,
            final(self)@.tags == old(self)@.tags,
            final(self)@.buffers == old(self)@.buffers,
            r == (ImageRef { frame: old(self)@.frame_id, id: ResourceId(old(self)@.images.len() as usize) }),
    {
        let id = self.images.len();
        self.images.push(
            ImageResource {
                info,
                creator: TOP_NODE,
                consumer: None,
                write_type: ImageWrite::Transfer,
            },
        );
        proof {
            lemma_wf_push_image(old(self)@, self@);
        }
        ImageRef { frame: self.frame_id, id: ResourceId(id) }
    }

    /// Translates a buffer version's creator node into `Input` (the source
    /// sentinel) or the registered pass that produced it.
    pub fn buffer_creator(&self, b: &BufferRef) -> (r: Result<ResourceCreator, FrameError>)
        ensures
            b.frame != self@.frame_id ==> r == Err::<ResourceCreator, FrameError>(
                FrameError::DanglingReference,
            ),
            b.frame == self@.frame_id && b.id.0 >= self@.buffers.len() ==> r == Err::<
                ResourceCreator,
                FrameError,
            >(FrameError::InvalidReference),
            b.frame == self@.frame_id && b.id.0 < self@.buffers.len() ==> r == Ok::<
                ResourceCreator,
                FrameError,
            >(
                if self@.buffers[b.id.0 as int].creator == TOP_NODE {
                    ResourceCreator::Input
                } else {
                    ResourceCreator::Pass(self@.buffers[b.id.0 as int].creator)
                },
            ),
    {
        match self.get_buffer(b) {
            Err(e) => Err(e),
            Ok(res) => {
                if res.creator == TOP_NODE {
                    Ok(ResourceCreator::Input)
                } else {
                    Ok(ResourceCreator::Pass(res.creator))
                }
            },
        }
    }

    /// The consumer recorded for a buffer version: the pass that overwrote
    /// it, or nothing.
    pub fn buffer_consumer(&self, b: &BufferRef) -> (r: Result<
        Option<ResourceConsumer>,
        FrameError,
    >)
        ensures
            b.frame != self@.frame_id ==> r == Err::<Option<ResourceConsumer>, FrameError>(
                FrameError::DanglingReference,
            ),
            b.frame == self@.frame_id && b.id.0 >= self@.buffers.len() ==> r == Err::<
                Option<ResourceConsumer>,
                FrameError,
            >(FrameError::InvalidReference),
            b.frame == self@.frame_id && b.id.0 < self@.buffers.len() ==> r == Ok::<
                Option<ResourceConsumer>,
                FrameError,
            >(self@.buffers[b.id.0 as int].consumer),
    {
        match self.get_buffer(b) {
            Err(e) => Err(e),
            Ok(res) => Ok(res.consumer),
        }
    }

    /// Translates an image version's creator node, as `buffer_creator`.
    pub fn image_creator(&self, i: &ImageRef) -> (r: Result<ResourceCreator, FrameError>)
        ensures
            i.frame != self@.frame_id ==> r == Err::<ResourceCreator, FrameError>(
                FrameError::DanglingReference,
            ),
            i.frame == self@.frame_id && i.id.0 >= self@.images.len() ==> r == Err::<
                ResourceCreator,
                FrameError,
            >(FrameError::InvalidReference),
            i.frame == self@.frame_id && i.id.0 < self@.images.len() ==> r == Ok::<
                ResourceCreator,
                FrameError,
            >(
                if self@.images[i.id.0 as int].creator == TOP_NODE {
                    ResourceCreator::Input
                } else {
                    ResourceCreator::Pass(self@.images[i.id.0 as int].creator)
                },
            ),
    {
        match self.get_image(i) {
            Err(e) => Err(e),
            Ok(res) => {
                if res.creator == TOP_NODE {
                    Ok(ResourceCreator::Input)
                } else {
                    Ok(ResourceCreator::Pass(res.creator))
                }
            },
        }
    }

    /// The consumer recorded for an image version, as `buffer_consumer`.
    pub fn image_consumer(&self, i: &ImageRef) -> (r: Result<
        Option<ResourceConsumer>,
        FrameError,
    >)
        ensures
            i.frame != self@.frame_id ==> r == Err::<Option<ResourceConsumer>, FrameError>(
                FrameError::DanglingReference,
            ),
            i.frame == self@.frame_id && i.id.0 >= self@.images.len() ==> r == Err::<
                Option<ResourceConsumer>,
                FrameError,
            >(FrameError::InvalidReference),
            i.frame == self@.frame_id && i.id.0 < self@.images.len() ==> r == Ok::<
                Option<ResourceConsumer>,
                FrameError,
            >(self@.images[i.id.0 as int].consumer),
    {
        match self.get_image(i) {
            Err(e) => Err(e),
            Ok(res) => Ok(res.consumer),
        }
    }

    /// Marks a buffer version as externally consumed: the sink sentinel
    /// becomes a reader of it, so the version (and, transitively, its
    /// creator) counts as live. Only the edge and its tag are added; the
    /// registry is untouched, and the version may still be written later.
    pub fn make_buffer_output(&mut self, b: &BufferRef) -> (r: Result<(), FrameError>)
        requires
            old(self).wf(),
            old(self)@.edges.len() < 0xFFFF_FFFF,
        ensures
            final(self).wf(),
            final(self)@.frame_id == old(self)@.frame_id,
            final(self)@.stages == old(self)@.stages,
            final(self)@.buffers == old(self)@.buffers,
            final(self)@.images == old(self)@.images,
            b.frame != old(self)@.frame_id ==> r == Err::<(), FrameError>(
                FrameError::DanglingReference,
            ) && final(self)@ == old(self)@,
            b.frame == old(self)@.frame_id && b.id.0 >= old(self)@.buffers.len() ==> r == Err::<
                (),
                FrameError,
            >(FrameError::InvalidReference) && final(self)@ == old(self)@,
            b.frame == old(self)@.frame_id && b.id.0 < old(self)@.buffers.len() ==> {
                &&& r == Ok::<(), FrameError>(())
                &&& final(self)@.edges == old(self)@.edges.push(
                    (BOTTOM_NODE, old(self)@.buffers[b.id.0 as int].creator),
                )
                &&& final(self)@.tags == old(self)@.tags.push(
                    PassDependency::ReadBuffer(b.id.0),
                )
            },
    {
        if b.frame != self.frame_id {
            return Err(FrameError::DanglingReference);
        }
        if b.id.0 >= self.buffers.len() {
            return Err(FrameError::InvalidReference);
        }
        let c = self.buffers[b.id.0].creator;
        proof {
            lemma_sink_edge_ok(self@, c);
        }
        dag_add_edge(&mut self.dag, BOTTOM_NODE, c);
        self.tags.push(PassDependency::ReadBuffer(b.id.0));
        proof {
            lemma_wf_append_edge(
                old(self)@,
                self@,
                (BOTTOM_NODE, old(self)@.buffers[b.id.0 as int].creator),
                PassDependency::ReadBuffer(b.id.0),
            );
        }
        Ok(())
    }

    /// Marks an image version as externally consumed, as
    /// `make_buffer_output`: the sink reads the version in the given
    /// layout, and nothing else changes.
    pub fn make_image_output(&mut self, i: &ImageRef, layout: crate::resource::ImageLayout) -> (r: Result<(), FrameError>)
        requires
            old(self).wf(),
            old(self)@.edges.len() < 0xFFFF_FFFF,
        ensures
            final(self).wf(),
            final(self)@.frame_id == old(self)@.frame_id,
            final(self)@.stages == old(self)@.stages,
            final(self)@.buffers == old(self)@.buffers,
            final(self)@.images == old(self)@.images,
            i.frame != old(self)@.frame_id ==> r == Err::<(), FrameError>(
                FrameError::DanglingReference,
            ) && final(self)@ == old(self)@,
            i.frame == old(self)@.frame_id && i.id.0 >= old(self)@.images.len() ==> r == Err::<
                (),
                FrameError,
            >(FrameError::InvalidReference) && final(self)@ == old(self)@,
            i.frame == old(self)@.frame_id && i.id.0 < old(self)@.images.len() ==> {
                &&& r == Ok::<(), FrameError>(())
                &&& final(self)@.edges == old(self)@.edges.push(
                    (BOTTOM_NODE, old(self)@.images[i.id.0 as int].creator),
                )
                &&& final(self)@.tags == old(self)@.tags.push(
                    PassDependency::ReadImage(i.id.0, crate::resource::ImageRead::Transfer(layout)),
                )
            },
    {
        if i.frame != self.frame_id {
            return Err(FrameError::DanglingReference);
        }
        if i.id.0 >= self.images.len() {
            return Err(FrameError::InvalidReference);
        }
        let c = self.images[i.id.0].creator;
        proof {
            lemma_sink_edge_ok(self@, c);
        }
        dag_add_edge(&mut self.dag, BOTTOM_NODE, c);
        self.tags.push(
            PassDependency::ReadImage(i.id.0, crate::resource::ImageRead::Transfer(layout)),
        );
        proof {
            lemma_wf_append_edge(
                old(self)@,
                self@,
                (BOTTOM_NODE, old(self)@.images[i.id.0 as int].creator),
                PassDependency::ReadImage(i.id.0, crate::resource::ImageRead::Transfer(layout)),
            );
        }
        Ok(())
    }

    /// The `(creating pass, local ordinal)` identity of a buffer version:
    /// the ordinal counts the versions the same node created before it.
    pub fn buffer_handle(&self, b: &BufferRef) -> (r: Result<ResourceHandle, FrameError>)
        ensures
            b.frame != self@.frame_id ==> r == Err::<ResourceHandle, FrameError>(
                FrameError::DanglingReference,
            ),
            b.frame == self@.frame_id && b.id.0 >= self@.buffers.len() ==> r == Err::<
                ResourceHandle,
                FrameError,
            >(FrameError::InvalidReference),
            b.frame == self@.frame_id && b.id.0 < self@.buffers.len() ==> r == Ok::<
                ResourceHandle,
                FrameError,
            >(
                ResourceHandle(
                    self@.buffers[b.id.0 as int].creator,
                    count_buffers_by(
                        self@.buffers,
                        self@.buffers[b.id.0 as int].creator,
                        b.id.0 as int,
                    ) as usize,
                ),
            ),
    {
        if b.frame != self.frame_id {
            return Err(FrameError::DanglingReference);
        }
        if b.id.0 >= self.buffers.len() {
            return Err(FrameError::InvalidReference);
        }
        let c = self.buffers[b.id.0].creator;
        let mut ordinal: usize = 0;
        let mut k: usize = 0;
        while k < b.id.0
            invariant
                k <= b.id.0,
                b.id.0 < self@.buffers.len(),
                ordinal == count_buffers_by(self@.buffers, c, k as int),
                ordinal <= k,
            decreases b.id.0 - k,
        {
            if self.buffers[k].creator == c {
                ordinal += 1;
            }
            k += 1;
        }
        Ok(ResourceHandle(c, ordinal))
    }

    /// The `(creating pass, local ordinal)` identity of an image version.
    pub fn image_handle(&self, i: &ImageRef) -> (r: Result<ResourceHandle, FrameError>)
        ensures
            i.frame != self@.frame_id ==> r == Err::<ResourceHandle, FrameError>(
                FrameError::DanglingReference,
            ),
            i.frame == self@.frame_id && i.id.0 >= self@.images.len() ==> r == Err::<
                ResourceHandle,
                FrameError,
            >(FrameError::InvalidReference),
            i.frame == self@.frame_id && i.id.0 < self@.images.len() ==> r == Ok::<
                ResourceHandle,
                FrameError,
            >(
                ResourceHandle(
                    self@.images[i.id.0 as int].creator,
                    count_images_by(
                        self@.images,
                        self@.images[i.id.0 as int].creator,
                        i.id.0 as int,
                    ) as usize,
                ),
            ),
    {
        if i.frame != self.frame_id {
            return Err(FrameError::DanglingReference);
        }
        if i.id.0 >= self.images.len() {
            return Err(FrameError::InvalidReference);
        }
        let c = self.images[i.id.0].creator;
        let mut ordinal: usize = 0;
        let mut k: usize = 0;
        while k < i.id.0
            invariant
                k <= i.id.0,
                i.id.0 < self@.images.len(),
                ordinal == count_images_by(self@.images, c, k as int),
                ordinal <= k,
            decreases i.id.0 - k,
        {
            if self.images[k].creator == c {
                ordinal += 1;
            }
            k += 1;
        }
        Ok(ResourceHandle(c, ordinal))
    }
}

impl Default for FrameGraph {
    /// The same empty frame `new` makes: identity 0, the two sentinels,
    /// nothing else.
    fn default() -> (g: FrameGraph)
        ensures
            g.wf(),
            g@.frame_id == 0,
            g@.stages == seq![FrameStage::Top, FrameStage::Bottom],
            g@.edges == Seq::<(usize, usize)>::empty(),
            g@.tags == Seq::<PassDependency>::empty(),
            g@.buffers == Seq::<BufferResource>::empty(),
            g@.images == Seq::<ImageResource>::empty(),
    {
        FrameGraph::new()
    }
}

/// Identifies a pass node in the dependency graph.
pub use crate::resource::PassRef;

/// How many of the first `upto` buffer versions were created by node `c`.
pub open spec fn count_buffers_by(s: Seq<BufferResource>, c: usize, upto: int) -> nat
    recommends
        0 <= upto <= s.len(),
    decreases upto,
{
    if upto <= 0 {
        0
    } else {
        count_buffers_by(s, c, upto - 1) + if s[upto - 1].creator == c {
            1nat
        } else {
            0nat
        }
    }
}

/// How many of the first `upto` image versions were created by node `c`.
pub open spec fn count_images_by(s: Seq<ImageResource>, c: usize, upto: int) -> nat
    recommends
        0 <= upto <= s.len(),
    decreases upto,
{
    if upto <= 0 {
        0
    } else {
        count_images_by(s, c, upto - 1) + if s[upto - 1].creator == c {
            1nat
        } else {
            0nat
        }
    }
}

/// The dependency graph of a well-formed frame is acyclic.
///
/// This is the acyclicity-by-construction guarantee: nodes are only
/// appended, and an edge only ever runs from the pass under construction
/// (or the sink) back to an already-existing creator, so no walk of length
/// two or more returns to its start.
pub proof fn lemma_dependency_graph_acyclic(g: FrameGraph)
    requires
        g.wf(),
    ensures
        acyclic(g@.edges),
{
    lemma_descending_acyclic(g@.edges);
}

/// Adding a sink edge towards a creator can never close a cycle: no edge
/// enters the sink, so nothing reaches it.
pub(crate) proof fn lemma_sink_edge_ok(m: FrameModel, c: usize)
    requires
        wf_model(m),
        creator_ok(m, c),
    ensures
        !reaches(m.edges, c, BOTTOM_NODE as usize),
{
    if reaches(m.edges, c, 1) {
        let p = choose|p: Seq<usize>|
            crate::reach::is_path(m.edges, p) && p.first() == c && p.last() == 1;
        if p.len() >= 2 {
            lemma_path_descends(m.edges, p);
        }
    }
}

/// Pushing a buffer whose creator is a valid node preserves
/// well-formedness.
pub(crate) proof fn lemma_wf_push_buffer(m0: FrameModel, m1: FrameModel)
    requires
        wf_model(m0),
        m1.stages == m0.stages,
        m1.edges == m0.edges,
        m1.tags == m0.tags,
        m1.images == m0.images,
        m1.buffers.len() == m0.buffers.len() + 1,
        forall|i: int| 0 <= i < m0.buffers.len() ==> m1.buffers[i] == m0.buffers[i],
        creator_ok(m1, m1.buffers[m1.buffers.len() - 1].creator),
    ensures
        wf_model(m1),
{
    assert forall|j: int| 0 <= j < m1.tags.len() implies tag_ok(m1, j) by {
        assert(tag_ok(m0, j));
    }
}

/// Pushing an image whose creator is a valid node preserves
/// well-formedness.
pub(crate) proof fn lemma_wf_push_image(m0: FrameModel, m1: FrameModel)
    requires
        wf_model(m0),
        m1.stages == m0.stages,
        m1.edges == m0.edges,
        m1.tags == m0.tags,
        m1.buffers == m0.buffers,
        m1.images.len() == m0.images.len() + 1,
        forall|i: int| 0 <= i < m0.images.len() ==> m1.images[i] == m0.images[i],
        creator_ok(m1, m1.images[m1.images.len() - 1].creator),
    ensures
        wf_model(m1),
{
    assert forall|j: int| 0 <= j < m1.tags.len() implies tag_ok(m1, j) by {
        assert(tag_ok(m0, j));
    }
}

/// A consistent edge payload stays consistent when the registries keep
/// every version's creator and info.
pub(crate) proof fn lemma_tag_ok_same_resources(
    m0: FrameModel,
    m1: FrameModel,
    j: int,
    i: usize,
    is_buffer: bool,
)
    requires
        tag_ok(m0, j),
        0 <= j < m0.tags.len(),
        m1.tags[j] == m0.tags[j],
        m1.edges[j] == m0.edges[j],
        m1.buffers.len() >= m0.buffers.len(),
        m1.images.len() >= m0.images.len(),
        forall|k: int|
            0 <= k < m0.buffers.len() ==> (#[trigger] m1.buffers[k]).creator == m0.buffers[
                k
            ].creator && m1.buffers[k].info == m0.buffers[k].info,
        forall|k: int|
            0 <= k < m0.images.len() ==> (#[trigger] m1.images[k]).creator == m0.images[k].creator
                && m1.images[k].info == m0.images[k].info,
    ensures
        tag_ok(m1, j),
{
}

/// Appending one well-directed, consistently tagged edge preserves
/// well-formedness when the registries are untouched.
pub(crate) proof fn lemma_wf_append_edge(
    m0: FrameModel,
    m1: FrameModel,
    e: (usize, usize),
    t: PassDependency,
)
    requires
        wf_model(m0),
        m1.stages == m0.stages,
        m1.frame_id == m0.frame_id,
        m1.buffers == m0.buffers,
        m1.images == m0.images,
        m1.edges == m0.edges.push(e),
        m1.tags == m0.tags.push(t),
        edge_ok(e),
        e.0 < m0.stages.len(),
        e.1 < m0.stages.len(),
        tag_ok(m1, m0.tags.len() as int),
    ensures
        wf_model(m1),
{
    let n = m0.tags.len() as int;
    assert forall|j: int| 0 <= j < m1.edges.len() implies edge_ok(#[trigger] m1.edges[j]) by {
        if j < n {
            assert(m1.edges[j] == m0.edges[j]);
            assert(edge_ok(m0.edges[j]));
        }
    }
    assert forall|j: int| 0 <= j < m1.tags.len() implies tag_ok(m1, j) by {
        if j < n {
            assert(tag_ok(m0, j));
            assert(m1.edges[j] == m0.edges[j]);
            assert(m1.tags[j] == m0.tags[j]);
        }
    }
    assert forall|j: int|
        0 <= j < m1.edges.len() implies (#[trigger] m1.edges[j]).0 < m1.stages.len()
        && m1.edges[j].1 < m1.stages.len() by {
        if j < n {
            assert(m1.edges[j] == m0.edges[j]);
        }
    }
}

} // verus!
