//! The pass-builder protocol: the only way to register a pass and declare
//! what it creates, reads and writes.
//!
//! Registration is two-phase. `FrameGraph::add_graphics_pass` or
//! `add_compute_pass` allocates the pass's node first — in the placeholder
//! `Invalid` state, so that the node's reference exists before any of the
//! pass's resources are declared — and moves the frame into a
//! `PassBuilder`. The builder's operations append resource versions and
//! dependency edges for that one pass; `finish` stamps the classification
//! on the node and gives the frame back. Because the builder owns the
//! frame, only one builder can ever be open per frame, and a frame is never
//! observable with a half-built pass.
//!
//! Writing is read-then-recreate: `write_buffer` and `write_image` record a
//! read edge, mark the old version's consumer, create a brand-new version
//! carrying the same description, and record a copy edge — the old version
//! is never mutated. A version that already has a consumer cannot be
//! written again (`DoubleWrite`), and a pass cannot read a version it
//! created itself (`GraphCycle`).

use vstd::prelude::*;

use crate::dag::{dag_add_edge, dag_add_node};
use crate::graph::{
    creator_ok, lemma_tag_ok_same_resources, lemma_wf_append_edge, tag_ok, wf_model, FrameGraph,
    FrameModel,
};
use crate::guard::Guard;
use crate::reach::{edge_ok, lemma_no_reach_up};
use crate::resource::{
    AttachmentInfo, BufferInfo, BufferRef, BufferResource, FrameError, FrameStage, ImageInfo,
    ImageLayout, ImageRead, ImageRef, ImageResource, ImageWrite, PassDependency, PassRef,
    ResourceConsumer, ResourceId,
};

verus! {

/// The mathematical content of one open builder session.
pub struct BuilderModel {
    /// The frame being built, including this session's appends so far.
    pub frame: FrameModel,
    /// The node index of the pass under construction.
    pub pass: usize,
    /// The classification `finish` will stamp on the node.
    pub stage: FrameStage,
}

/// A pass under construction: exclusive access to the frame, scoped to one
/// registration.
pub struct PassBuilder {
    pub(crate) frame: FrameGraph,
    pub(crate) pass: usize,
    pub(crate) stage: FrameStage,
}

impl View for PassBuilder {
    type V = BuilderModel;

    closed spec fn view(&self) -> BuilderModel {
        BuilderModel { frame: self.frame@, pass: self.pass, stage: self.stage }
    }
}

impl FrameGraph {
    /// Allocates a node for a new graphics pass — in the placeholder
    /// `Invalid` state — and opens the builder session for it.
    pub fn add_graphics_pass(self) -> (b: PassBuilder)
        requires
            self.wf(),
            self@.stages.len() < 0xFFFF_FFFF,
        ensures
            b.wf(),
            b@.stage == FrameStage::Graphics,
            b@.pass == self@.stages.len(),
            b@.frame.stages == self@.stages.push(FrameStage::Invalid),
            b@.frame.frame_id == self@.frame_id,
            b@.frame.edges == self@.edges,
            b@.frame.tags == self@.tags,
            b@.frame.buffers == self@.buffers,
            b@.frame.images == self@.images,
    {
        self.begin_pass(FrameStage::Graphics)
    }

    /// Allocates a node for a new compute pass — in the placeholder
    /// `Invalid` state — and opens the builder session for it.
    pub fn add_compute_pass(self) -> (b: PassBuilder)
        requires
            self.wf(),
            self@.stages.len() < 0xFFFF_FFFF,
        ensures
            b.wf(),
            b@.stage == FrameStage::Compute,
            b@.pass == self@.stages.len(),
            b@.frame.stages == self@.stages.push(FrameStage::Invalid),
            b@.frame.frame_id == self@.frame_id,
            b@.frame.edges == self@.edges,
            b@.frame.tags == self@.tags,
            b@.frame.buffers == self@.buffers,
            b@.frame.images == self@.images,
    {
        self.begin_pass(FrameStage::Compute)
    }

    fn begin_pass(self, stage: FrameStage) -> (b: PassBuilder)
        requires
            self.wf(),
            self@.stages.len() < 0xFFFF_FFFF,
            stage == FrameStage::Graphics || stage == FrameStage::Compute,
        ensures
            b.wf(),
            b@.stage == stage,
            b@.pass == self@.stages.len(),
            b@.frame.stages == self@.stages.push(FrameStage::Invalid),
            b@.frame.frame_id == self@.frame_id,
            b@.frame.edges == self@.edges,
            b@.frame.tags == self@.tags,
            b@.frame.buffers == self@.buffers,
            b@.frame.images == self@.images,
    {
        proof {
            self.lemma_parts();
        }
        let mut g = self;
        let n = dag_add_node(&mut g.dag);
        g.stages.push(FrameStage::Invalid);
        proof {
            g.lemma_parts();
            lemma_wf_grow_stage(self@, g@);
            g.lemma_wf_intro();
        }
        PassBuilder { frame: g, pass: n, stage }
    }
}

impl PassBuilder {
    /// Well-formedness of the session: the frame is well-formed, the pass
    /// under construction is its last node, that node still holds the
    /// placeholder, and the pending classification is a real one.
    pub closed spec fn wf(self) -> bool {
        &&& self.frame.wf()
        &&& self.pass >= 2
        &&& self.pass + 1 == self.frame@.stages.len()
        &&& self.frame@.stages[self.pass as int] == FrameStage::Invalid
        &&& (self.stage == FrameStage::Graphics || self.stage == FrameStage::Compute)
    }

    /// The node index of the pass under construction.
    pub fn pass_ref(&self) -> (r: PassRef)
        ensures
            r == PassRef(self@.pass),
    {
        PassRef(self.pass)
    }

    /// Registers a new buffer version whose creator is the pass under
    /// construction. No edge is added: there is nothing to depend on yet.
    pub fn create_buffer(&mut self, info: BufferInfo) -> (r: BufferRef)
        requires
            old(self).wf(),
        ensures
            final(self).wf(),
            final(self)@.pass == old(self)@.pass,
            final(self)@.stage == old(self)@.stage,
            final(self)@.frame.buffers == old(self)@.frame.buffers.push(
                BufferResource { info, creator: old(self)@.pass, consumer: None },
            ),
            final(self)@.frame.frame_id == old(self)@.frame.frame_id,
            final(self)@.frame.stages == old(self)@.frame.stages,
            final(self)@.frame.edges == old(self)@.frame.edges,
            final(self)@.frame.tags == old(self)@.frame.tags,
            final(self)@.frame.images == old(self)@.frame.images,
            r == (BufferRef {
                frame: old(self)@.frame.frame_id,
                id: ResourceId(old(self)@.frame.buffers.len() as usize),
            }),
    {
        proof {
            self.frame.lemma_parts();
        }
        let id = self.frame.buffers.len();
        self.frame.buffers.push(
            BufferResource { info, creator: self.pass, consumer: None },
        );
        proof {
            self.frame.lemma_parts();
            crate::graph::lemma_wf_push_buffer(old(self)@.frame, self@.frame);
            self.frame.lemma_wf_intro();
        }
        BufferRef { frame: self.frame.frame_id, id: ResourceId(id) }
    }

    /// Registers a new image version whose creator is the pass under
    /// construction, produced by plain writes.
    pub fn create_image(&mut self, info: ImageInfo) -> (r: ImageRef)
        requires
            old(self).wf(),
        ensures
            final(self).wf(),
            final(self)@.pass == old(self)@.pass,
            final(self)@.stage == old(self)@.stage,
            final(self)@.frame.images == old(self)@.frame.images.push(
                ImageResource {
                    info,
                    creator: old(self)@.pass,
                    consumer: None,
                    write_type: ImageWrite::Transfer,
                },
            ),
            final(self)@.frame.frame_id == old(self)@.frame.frame_id,
            final(self)@.frame.stages == old(self)@.frame.stages,
            final(self)@.frame.edges == old(self)@.frame.edges,
            final(self)@.frame.tags == old(self)@.frame.tags,
            final(self)@.frame.buffers == old(self)@.frame.buffers,
            r == (ImageRef {
                frame: old(self)@.frame.frame_id,
                id: ResourceId(old(self)@.frame.images.len() as usize),
            }),
    {
        self.create_image_with(info, ImageWrite::Transfer)
    }

    /// Registers a new image version that carries render-attachment
    /// metadata: the specialization of `create_image` for framebuffer
    /// attachments, with a clear-on-load flag.
    pub fn create_attachment(&mut self, info: ImageInfo, attachment: AttachmentInfo, clear: bool)
        -> (r: ImageRef)
        requires
            old(self).wf(),
        ensures
            final(self).wf(),
            final(self)@.pass == old(self)@.pass,
            final(self)@.stage == old(self)@.stage,
            final(self)@.frame.images == old(self)@.frame.images.push(
                ImageResource {
                    info,
                    creator: old(self)@.pass,
                    consumer: None,
                    write_type: ImageWrite::Attachment(attachment, clear),
                },
            ),
            final(self)@.frame.frame_id == old(self)@.frame.frame_id,
            final(self)@.frame.stages == old(self)@.frame.stages,
            final(self)@.frame.edges == old(self)@.frame.edges,
            final(self)@.frame.tags == old(self)@.frame.tags,
            final(self)@.frame.buffers == old(self)@.frame.buffers,
            r == (ImageRef {
                frame: old(self)@.frame.frame_id,
                id: ResourceId(old(self)@.frame.images.len() as usize),
            }),
    {
        self.create_image_with(info, ImageWrite::Attachment(attachment, clear))
    }

    fn create_image_with(&mut self, info: ImageInfo, write_type: ImageWrite) -> (r: ImageRef)
        requires
            old(self).wf(),
        ensures
            final(self).wf(),
            final(self)@.pass == old(self)@.pass,
            final(self)@.stage == old(self)@.stage,
            final(self)@.frame.images == old(self)@.frame.images.push(
                ImageResource { info, creator: old(self)@.pass, consumer: None, write_type },
            ),
            final(self)@.frame.frame_id == old(self)@.frame.frame_id,
            final(self)@.frame.stages == old(self)@.frame.stages,
            final(self)@.frame.edges == old(self)@.frame.edges,
            final(self)@.frame.tags == old(self)@.frame.tags,
            final(self)@.frame.buffers == old(self)@.frame.buffers,
            r == (ImageRef {
                frame: old(self)@.frame.frame_id,
                id: ResourceId(old(self)@.frame.images.len() as usize),
            }),
    {
        proof {
            self.frame.lemma_parts();
        }
        let id = self.frame.images.len();
        self.frame.images.push(
            ImageResource { info, creator: self.pass, consumer: None, write_type },
        );
        proof {
            self.frame.lemma_parts();
            crate::graph::lemma_wf_push_image(old(self)@.frame, self@.frame);
            self.frame.lemma_wf_intro();
        }
        ImageRef { frame: self.frame.frame_id, id: ResourceId(id) }
    }

    /// Records that the pass under construction reads a buffer version: an
    /// edge from this pass back to the version's creator. Duplicate reads
    /// are each recorded; edges are not deduplicated.
    pub fn read_buffer(&mut self, b: &BufferRef) -> (r: Result<(), FrameError>)
        requires
            old(self).wf(),
            old(self)@.frame.edges.len() < 0xFFFF_FFFF,
        ensures
            final(self).wf(),
            final(self)@.pass == old(self)@.pass,
            final(self)@.stage == old(self)@.stage,
            final(self)@.frame.frame_id == old(self)@.frame.frame_id,
            final(self)@.frame.stages == old(self)@.frame.stages,
            final(self)@.frame.buffers == old(self)@.frame.buffers,
            final(self)@.frame.images == old(self)@.frame.images,
            b.frame != old(self)@.frame.frame_id ==> r == Err::<(), FrameError>(
                FrameError::DanglingReference,
            ) && final(self)@ == old(self)@,
            b.frame == old(self)@.frame.frame_id && b.id.0 >= old(self)@.frame.buffers.len()
                ==> r == Err::<(), FrameError>(FrameError::InvalidReference) && final(self)@
                == old(self)@,
            b.frame == old(self)@.frame.frame_id && b.id.0 < old(self)@.frame.buffers.len()
                && old(self)@.frame.buffers[b.id.0 as int].creator == old(self)@.pass ==> r
                == Err::<(), FrameError>(FrameError::GraphCycle) && final(self)@ == old(self)@,
            b.frame == old(self)@.frame.frame_id && b.id.0 < old(self)@.frame.buffers.len()
                && old(self)@.frame.buffers[b.id.0 as int].creator != old(self)@.pass ==> {
                &&& r == Ok::<(), FrameError>(())
                &&& final(self)@.frame.edges == old(self)@.frame.edges.push(
                    (old(self)@.pass, old(self)@.frame.buffers[b.id.0 as int].creator),
                )
                &&& final(self)@.frame.tags == old(self)@.frame.tags.push(
                    PassDependency::ReadBuffer(b.id.0),
                )
            },
    {
        proof {
            self.frame.lemma_parts();
        }
        if b.frame != self.frame.frame_id {
            return Err(FrameError::DanglingReference);
        }
        if b.id.0 >= self.frame.buffers.len() {
            return Err(FrameError::InvalidReference);
        }
        let c = self.frame.buffers[b.id.0].creator;
        if c == self.pass {
            return Err(FrameError::GraphCycle);
        }
        proof {
            self.frame.lemma_parts();
            lemma_no_reach_up(self@.frame.edges, c, self.pass);
        }
        dag_add_edge(&mut self.frame.dag, self.pass, c);
        self.frame.tags.push(PassDependency::ReadBuffer(b.id.0));
        proof {
            self.frame.lemma_parts();
            lemma_wf_append_edge(
                old(self)@.frame,
                self@.frame,
                (old(self)@.pass, old(self)@.frame.buffers[b.id.0 as int].creator),
                PassDependency::ReadBuffer(b.id.0),
            );
            self.frame.lemma_wf_intro();
        }
        Ok(())
    }

    /// Records that the pass under construction reads an image version in
    /// the given layout.
    pub fn read_image(&mut self, i: &ImageRef, layout: ImageLayout) -> (r: Result<
        (),
        FrameError,
    >)
        requires
            old(self).wf(),
            old(self)@.frame.edges.len() < 0xFFFF_FFFF,
        ensures
            final(self).wf(),
            final(self)@.pass == old(self)@.pass,
            final(self)@.stage == old(self)@.stage,
            final(self)@.frame.frame_id == old(self)@.frame.frame_id,
            final(self)@.frame.stages == old(self)@.frame.stages,
            final(self)@.frame.buffers == old(self)@.frame.buffers,
            final(self)@.frame.images == old(self)@.frame.images,
            i.frame != old(self)@.frame.frame_id ==> r == Err::<(), FrameError>(
                FrameError::DanglingReference,
            ) && final(self)@ == old(self)@,
            i.frame == old(self)@.frame.frame_id && i.id.0 >= old(self)@.frame.images.len()
                ==> r == Err::<(), FrameError>(FrameError::InvalidReference) && final(self)@
                == old(self)@,
            i.frame == old(self)@.frame.frame_id && i.id.0 < old(self)@.frame.images.len()
                && old(self)@.frame.images[i.id.0 as int].creator == old(self)@.pass ==> r
                == Err::<(), FrameError>(FrameError::GraphCycle) && final(self)@ == old(self)@,
            i.frame == old(self)@.frame.frame_id && i.id.0 < old(self)@.frame.images.len()
                && old(self)@.frame.images[i.id.0 as int].creator != old(self)@.pass ==> {
                &&& r == Ok::<(), FrameError>(())
                &&& final(self)@.frame.edges == old(self)@.frame.edges.push(
                    (old(self)@.pass, old(self)@.frame.images[i.id.0 as int].creator),
                )
                &&& final(self)@.frame.tags == old(self)@.frame.tags.push(
                    PassDependency::ReadImage(i.id.0, ImageRead::Transfer(layout)),
                )
            },
    {
        self.read_image_with(i, ImageRead::Transfer(layout))
    }

    /// Records that the pass under construction reads an image version as a
    /// render attachment: the specialization of `read_image` whose edge
    /// carries an `Attachment` tag instead of a `Transfer` one.
    pub fn read_attachment(&mut self, i: &ImageRef, attachment: AttachmentInfo) -> (r: Result<
        (),
        FrameError,
    >)
        requires
            old(self).wf(),
            old(self)@.frame.edges.len() < 0xFFFF_FFFF,
        ensures
            final(self).wf(),
            final(self)@.pass == old(self)@.pass,
            final(self)@.stage == old(self)@.stage,
            final(self)@.frame.frame_id == old(self)@.frame.frame_id,
            final(self)@.frame.stages == old(self)@.frame.stages,
            final(self)@.frame.buffers == old(self)@.frame.buffers,
            final(self)@.frame.images == old(self)@.frame.images,
            i.frame != old(self)@.frame.frame_id ==> r == Err::<(), FrameError>(
                FrameError::DanglingReference,
            ) && final(self)@ == old(self)@,
            i.frame == old(self)@.frame.frame_id && i.id.0 >= old(self)@.frame.images.len()
                ==> r == Err::<(), FrameError>(FrameError::InvalidReference) && final(self)@
                == old(self)@,
            i.frame == old(self)@.frame.frame_id && i.id.0 < old(self)@.frame.images.len()
                && old(self)@.frame.images[i.id.0 as int].creator == old(self)@.pass ==> r
                == Err::<(), FrameError>(FrameError::GraphCycle) && final(self)@ == old(self)@,
            i.frame == old(self)@.frame.frame_id && i.id.0 < old(self)@.frame.images.len()
                && old(self)@.frame.images[i.id.0 as int].creator != old(self)@.pass ==> {
                &&& r == Ok::<(), FrameError>(())
                &&& final(self)@.frame.edges == old(self)@.frame.edges.push(
                    (old(self)@.pass, old(self)@.frame.images[i.id.0 as int].creator),
                )
                &&& final(self)@.frame.tags == old(self)@.frame.tags.push(
                    PassDependency::ReadImage(i.id.0, ImageRead::Attachment(attachment)),
                )
            },
    {
        self.read_image_with(i, ImageRead::Attachment(attachment))
    }

    fn read_image_with(&mut self, i: &ImageRef, how: ImageRead) -> (r: Result<(), FrameError>)
        requires
            old(self).wf(),
            old(self)@.frame.edges.len() < 0xFFFF_FFFF,
        ensures
            final(self).wf(),
            final(self)@.pass == old(self)@.pass,
            final(self)@.stage == old(self)@.stage,
            final(self)@.frame.frame_id == old(self)@.frame.frame_id,
            final(self)@.frame.stages == old(self)@.frame.stages,
            final(self)@.frame.buffers == old(self)@.frame.buffers,
            final(self)@.frame.images == old(self)@.frame.images,
            i.frame != old(self)@.frame.frame_id ==> r == Err::<(), FrameError>(
                FrameError::DanglingReference,
            ) && final(self)@ == old(self)@,
            i.frame == old(self)@.frame.frame_id && i.id.0 >= old(self)@.frame.images.len()
                ==> r == Err::<(), FrameError>(FrameError::InvalidReference) && final(self)@
                == old(self)@,
            i.frame == old(self)@.frame.frame_id && i.id.0 < old(self)@.frame.images.len()
                && old(self)@.frame.images[i.id.0 as int].creator == old(self)@.pass ==> r
                == Err::<(), FrameError>(FrameError::GraphCycle) && final(self)@ == old(self)@,
            i.frame == old(self)@.frame.frame_id && i.id.0 < old(self)@.frame.images.len()
                && old(self)@.frame.images[i.id.0 as int].creator != old(self)@.pass ==> {
                &&& r == Ok::<(), FrameError>(())
                &&& final(self)@.frame.edges == old(self)@.frame.edges.push(
                    (old(self)@.pass, old(self)@.frame.images[i.id.0 as int].creator),
                )
                &&& final(self)@.frame.tags == old(self)@.frame.tags.push(
                    PassDependency::ReadImage(i.id.0, how),
                )
            },
    {
        proof {
            self.frame.lemma_parts();
        }
        if i.frame != self.frame.frame_id {
            return Err(FrameError::DanglingReference);
        }
        if i.id.0 >= self.frame.images.len() {
            return Err(FrameError::InvalidReference);
        }
        let c = self.frame.images[i.id.0].creator;
        if c == self.pass {
            return Err(FrameError::GraphCycle);
        }
        proof {
            self.frame.lemma_parts();
            lemma_no_reach_up(self@.frame.edges, c, self.pass);
        }
        dag_add_edge(&mut self.frame.dag, self.pass, c);
        self.frame.tags.push(PassDependency::ReadImage(i.id.0, how));
        proof {
            self.frame.lemma_parts();
            lemma_wf_append_edge(
                old(self)@.frame,
                self@.frame,
                (old(self)@.pass, old(self)@.frame.images[i.id.0 as int].creator),
                PassDependency::ReadImage(i.id.0, how),
            );
            self.frame.lemma_wf_intro();
        }
        Ok(())
    }


    /// Read-then-recreate for a buffer: records a read edge back to the
    /// version's creator, marks the version's consumer as this pass,
    /// registers a brand-new version carrying the same description, and
    /// records the copy edge `(old index, new index)`. The old version
    /// stays valid for inspection; writing it again is refused.
    pub fn write_buffer(&mut self, b: &BufferRef) -> (r: Result<BufferRef, FrameError>)
        requires
            old(self).wf(),
            old(self)@.frame.edges.len() + 1 < 0xFFFF_FFFF,
        ensures
            final(self).wf(),
            final(self)@.pass == old(self)@.pass,
            final(self)@.stage == old(self)@.stage,
            final(self)@.frame.frame_id == old(self)@.frame.frame_id,
            final(self)@.frame.stages == old(self)@.frame.stages,
            final(self)@.frame.images == old(self)@.frame.images,
            b.frame != old(self)@.frame.frame_id ==> r == Err::<BufferRef, FrameError>(
                FrameError::DanglingReference,
            ) && final(self)@ == old(self)@,
            b.frame == old(self)@.frame.frame_id && b.id.0 >= old(self)@.frame.buffers.len()
                ==> r == Err::<BufferRef, FrameError>(FrameError::InvalidReference) && final(self)@ == old(self)@,
            b.frame == old(self)@.frame.frame_id && b.id.0 < old(self)@.frame.buffers.len()
                && old(self)@.frame.buffers[b.id.0 as int].creator == old(self)@.pass ==> r
                == Err::<BufferRef, FrameError>(FrameError::GraphCycle) && final(self)@ == old(self)@,
            b.frame == old(self)@.frame.frame_id && b.id.0 < old(self)@.frame.buffers.len()
                && old(self)@.frame.buffers[b.id.0 as int].creator != old(self)@.pass && old(self)@.frame.buffers[b.id.0 as int].consumer is Some ==> r == Err::<
                BufferRef,
                FrameError,
            >(FrameError::DoubleWrite) && final(self)@ == old(self)@,
            b.frame == old(self)@.frame.frame_id && b.id.0 < old(self)@.frame.buffers.len()
                && old(self)@.frame.buffers[b.id.0 as int].creator != old(self)@.pass && old(self)@.frame.buffers[b.id.0 as int].consumer is None ==> write_buffer_ok(
                old(self)@,
                final(self)@,
                r,
                b.id.0,
            ),
    {
        proof {
            self.frame.lemma_parts();
        }
        if b.frame != self.frame.frame_id {
            return Err(FrameError::DanglingReference);
        }
        if b.id.0 >= self.frame.buffers.len() {
            return Err(FrameError::InvalidReference);
        }
        let c = self.frame.buffers[b.id.0].creator;
        if c == self.pass {
            return Err(FrameError::GraphCycle);
        }
        if self.frame.buffers[b.id.0].consumer.is_some() {
            return Err(FrameError::DoubleWrite);
        }
        let info = self.frame.buffers[b.id.0].info;
        let ghost m0 = self@.frame;
        proof {
            lemma_no_reach_up(m0.edges, c, self.pass);
        }
        dag_add_edge(&mut self.frame.dag, self.pass, c);
        self.frame.tags.push(PassDependency::ReadBuffer(b.id.0));
        proof {
            self.frame.lemma_parts();
            assert forall|j: int|
                0 <= j < self@.frame.edges.len() implies edge_ok(
                #[trigger] self@.frame.edges[j]) by {
                if j < m0.edges.len() {
                    assert(self@.frame.edges[j] == m0.edges[j]);
                    assert(edge_ok(m0.edges[j]));
                }
            }
            lemma_no_reach_up(self@.frame.edges, c, self.pass);
        }
        dag_add_edge(&mut self.frame.dag, self.pass, c);
        let new_id = self.frame.buffers.len();
        self.frame.tags.push(PassDependency::CopyBuffer(b.id.0, new_id));
        self.frame.buffers.set(
            b.id.0,
            BufferResource {
                info,
                creator: c,
                consumer: Some(ResourceConsumer::Pass(self.pass)),
            },
        );
        self.frame.buffers.push(
            BufferResource { info, creator: self.pass, consumer: None },
        );
        proof {
            self.frame.lemma_parts();
            lemma_wf_after_write_buffer(m0, self@.frame, b.id.0, new_id, old(self)@.pass);
            self.frame.lemma_wf_intro();
        }
        Ok(BufferRef { frame: self.frame.frame_id, id: ResourceId(new_id) })
    }

    /// Read-then-recreate for an image read in the given layout, as
    /// `write_buffer`: the new version carries the same description and is
    /// produced by plain writes.
    pub fn write_image(&mut self, i: &ImageRef, layout: ImageLayout) -> (r: Result<
        ImageRef,
        FrameError,
    >)
        requires
            old(self).wf(),
            old(self)@.frame.edges.len() + 1 < 0xFFFF_FFFF,
        ensures
            final(self).wf(),
            final(self)@.pass == old(self)@.pass,
            final(self)@.stage == old(self)@.stage,
            final(self)@.frame.frame_id == old(self)@.frame.frame_id,
            final(self)@.frame.stages == old(self)@.frame.stages,
            final(self)@.frame.buffers == old(self)@.frame.buffers,
            i.frame != old(self)@.frame.frame_id ==> r == Err::<ImageRef, FrameError>(
                FrameError::DanglingReference,
            ) && final(self)@ == old(self)@,
            i.frame == old(self)@.frame.frame_id && i.id.0 >= old(self)@.frame.images.len()
                ==> r == Err::<ImageRef, FrameError>(FrameError::InvalidReference) && final(self)@ == old(self)@,
            i.frame == old(self)@.frame.frame_id && i.id.0 < old(self)@.frame.images.len()
                && old(self)@.frame.images[i.id.0 as int].creator == old(self)@.pass ==> r
                == Err::<ImageRef, FrameError>(FrameError::GraphCycle) && final(self)@ == old(self)@,
            i.frame == old(self)@.frame.frame_id && i.id.0 < old(self)@.frame.images.len()
                && old(self)@.frame.images[i.id.0 as int].creator != old(self)@.pass && old(self)@.frame.images[i.id.0 as int].consumer is Some ==> r == Err::<
                ImageRef,
                FrameError,
            >(FrameError::DoubleWrite) && final(self)@ == old(self)@,
            i.frame == old(self)@.frame.frame_id && i.id.0 < old(self)@.frame.images.len()
                && old(self)@.frame.images[i.id.0 as int].creator != old(self)@.pass && old(self)@.frame.images[i.id.0 as int].consumer is None ==> write_image_ok(
                old(self)@,
                final(self)@,
                r,
                i.id.0,
                ImageRead::Transfer(layout),
                ImageWrite::Transfer,
            ),
    {
        self.write_image_with(i, ImageRead::Transfer(layout), ImageWrite::Transfer)
    }

    /// Read-then-recreate for a render attachment, as `write_image`, with
    /// the read edge tagged `Attachment` and the new version produced as an
    /// attachment with the given clear-on-load flag.
    pub fn write_attachment(
        &mut self,
        i: &ImageRef,
        attachment: AttachmentInfo,
        clear: bool,
    ) -> (r: Result<ImageRef, FrameError>)
        requires
            old(self).wf(),
            old(self)@.frame.edges.len() + 1 < 0xFFFF_FFFF,
        ensures
            final(self).wf(),
            final(self)@.pass == old(self)@.pass,
            final(self)@.stage == old(self)@.stage,
            final(self)@.frame.frame_id == old(self)@.frame.frame_id,
            final(self)@.frame.stages == old(self)@.frame.stages,
            final(self)@.frame.buffers == old(self)@.frame.buffers,
            i.frame != old(self)@.frame.frame_id ==> r == Err::<ImageRef, FrameError>(
                FrameError::DanglingReference,
            ) && final(self)@ == old(self)@,
            i.frame == old(self)@.frame.frame_id && i.id.0 >= old(self)@.frame.images.len()
                ==> r == Err::<ImageRef, FrameError>(FrameError::InvalidReference) && final(self)@ == old(self)@,
            i.frame == old(self)@.frame.frame_id && i.id.0 < old(self)@.frame.images.len()
                && old(self)@.frame.images[i.id.0 as int].creator == old(self)@.pass ==> r
                == Err::<ImageRef, FrameError>(FrameError::GraphCycle) && final(self)@ == old(self)@,
            i.frame == old(self)@.frame.frame_id && i.id.0 < old(self)@.frame.images.len()
                && old(self)@.frame.images[i.id.0 as int].creator != old(self)@.pass && old(self)@.frame.images[i.id.0 as int].consumer is Some ==> r == Err::<
                ImageRef,
                FrameError,
            >(FrameError::DoubleWrite) && final(self)@ == old(self)@,
            i.frame == old(self)@.frame.frame_id && i.id.0 < old(self)@.frame.images.len()
                && old(self)@.frame.images[i.id.0 as int].creator != old(self)@.pass && old(self)@.frame.images[i.id.0 as int].consumer is None ==> write_image_ok(
                old(self)@,
                final(self)@,
                r,
                i.id.0,
                ImageRead::Attachment(attachment),
                ImageWrite::Attachment(attachment, clear),
            ),
    {
        self.write_image_with(i, ImageRead::Attachment(attachment), ImageWrite::Attachment(attachment, clear))
    }

    fn write_image_with(&mut self, i: &ImageRef, how: ImageRead, new_write: ImageWrite) -> (r:
        Result<ImageRef, FrameError>)
        requires
            old(self).wf(),
            old(self)@.frame.edges.len() + 1 < 0xFFFF_FFFF,
        ensures
            final(self).wf(),
            final(self)@.pass == old(self)@.pass,
            final(self)@.stage == old(self)@.stage,
            final(self)@.frame.frame_id == old(self)@.frame.frame_id,
            final(self)@.frame.stages == old(self)@.frame.stages,
            final(self)@.frame.buffers == old(self)@.frame.buffers,
            i.frame != old(self)@.frame.frame_id ==> r == Err::<ImageRef, FrameError>(
                FrameError::DanglingReference,
            ) && final(self)@ == old(self)@,
            i.frame == old(self)@.frame.frame_id && i.id.0 >= old(self)@.frame.images.len()
                ==> r == Err::<ImageRef, FrameError>(FrameError::InvalidReference) && final(self)@ == old(self)@,
            i.frame == old(self)@.frame.frame_id && i.id.0 < old(self)@.frame.images.len()
                && old(self)@.frame.images[i.id.0 as int].creator == old(self)@.pass ==> r
                == Err::<ImageRef, FrameError>(FrameError::GraphCycle) && final(self)@ == old(self)@,
            i.frame == old(self)@.frame.frame_id && i.id.0 < old(self)@.frame.images.len()
                && old(self)@.frame.images[i.id.0 as int].creator != old(self)@.pass && old(self)@.frame.images[i.id.0 as int].consumer is Some ==> r == Err::<
                ImageRef,
                FrameError,
            >(FrameError::DoubleWrite) && final(self)@ == old(self)@,
            i.frame == old(self)@.frame.frame_id && i.id.0 < old(self)@.frame.images.len()
                && old(self)@.frame.images[i.id.0 as int].creator != old(self)@.pass && old(self)@.frame.images[i.id.0 as int].consumer is None ==> write_image_ok(
                old(self)@,
                final(self)@,
                r,
                i.id.0,
                how,
                new_write,
            ),
    {
        proof {
            self.frame.lemma_parts();
        }
        if i.frame != self.frame.frame_id {
            return Err(FrameError::DanglingReference);
        }
        if i.id.0 >= self.frame.images.len() {
            return Err(FrameError::InvalidReference);
        }
        let c = self.frame.images[i.id.0].creator;
        if c == self.pass {
            return Err(FrameError::GraphCycle);
        }
        if self.frame.images[i.id.0].consumer.is_some() {
            return Err(FrameError::DoubleWrite);
        }
        let info = self.frame.images[i.id.0].info;
        let old_write = self.frame.images[i.id.0].write_type;
        let ghost m0 = self@.frame;
        proof {
            lemma_no_reach_up(m0.edges, c, self.pass);
        }
        dag_add_edge(&mut self.frame.dag, self.pass, c);
        self.frame.tags.push(PassDependency::ReadImage(i.id.0, how));
        proof {
            self.frame.lemma_parts();
            assert forall|j: int|
                0 <= j < self@.frame.edges.len() implies edge_ok(
                #[trigger] self@.frame.edges[j]) by {
                if j < m0.edges.len() {
                    assert(self@.frame.edges[j] == m0.edges[j]);
                    assert(edge_ok(m0.edges[j]));
                }
            }
            lemma_no_reach_up(self@.frame.edges, c, self.pass);
        }
        dag_add_edge(&mut self.frame.dag, self.pass, c);
        let new_id = self.frame.images.len();
        self.frame.tags.push(PassDependency::CopyImage(i.id.0, new_id));
        self.frame.images.set(
            i.id.0,
            ImageResource {
                info,
                creator: c,
                consumer: Some(ResourceConsumer::Pass(self.pass)),
                write_type: old_write,
            },
        );
        self.frame.images.push(
            ImageResource { info, creator: self.pass, consumer: None, write_type: new_write },
        );
        proof {
            self.frame.lemma_parts();
            lemma_wf_after_write_image(m0, self@.frame, i.id.0, new_id, old(self)@.pass);
            self.frame.lemma_wf_intro();
        }
        Ok(ImageRef { frame: self.frame.frame_id, id: ResourceId(new_id) })
    }

    /// Stamps the classification on the pass's node and gives the frame
    /// back, together with the pass's reference.
    pub fn finish(self) -> (r: (FrameGraph, Guard<PassRef>))
        requires
            self.wf(),
        ensures
            r.0.wf(),
            r.0@.stages == self@.frame.stages.update(self@.pass as int, self@.stage),
            r.0@.frame_id == self@.frame.frame_id,
            r.0@.edges == self@.frame.edges,
            r.0@.tags == self@.frame.tags,
            r.0@.buffers == self@.frame.buffers,
            r.0@.images == self@.frame.images,
            r.1.inner() == PassRef(self@.pass),
    {
        proof {
            self.frame.lemma_parts();
        }
        let PassBuilder { mut frame, pass, stage } = self;
        frame.stages.set(pass, stage);
        proof {
            frame.lemma_parts();
            lemma_wf_set_stage(self@.frame, frame@, pass, stage);
            frame.lemma_wf_intro();
        }
        (frame, Guard::new(PassRef(pass)))
    }
}


/// What a successful buffer write leaves behind: a read edge and a copy
/// edge back to the old version's creator, the old version marked consumed
/// by this pass, and a fresh version of the same description owned by it.
pub open spec fn write_buffer_ok(
    b0: BuilderModel,
    b1: BuilderModel,
    r: Result<BufferRef, FrameError>,
    i: usize,
) -> bool {
    let m = b0.frame;
    let c = m.buffers[i as int].creator;
    let info = m.buffers[i as int].info;
    &&& r == Ok::<BufferRef, FrameError>(
        BufferRef { frame: m.frame_id, id: ResourceId(m.buffers.len() as usize) },
    )
    &&& b1.frame.edges == m.edges.push((b0.pass, c)).push((b0.pass, c))
    &&& b1.frame.tags == m.tags.push(PassDependency::ReadBuffer(i)).push(
        PassDependency::CopyBuffer(i, m.buffers.len() as usize),
    )
    &&& b1.frame.buffers == m.buffers.update(
        i as int,
        BufferResource {
            info,
            creator: c,
            consumer: Some(ResourceConsumer::Pass(b0.pass)),
        },
    ).push(BufferResource { info, creator: b0.pass, consumer: None })
}

/// What a successful image write leaves behind: a read edge and a copy
/// edge back to the old version's creator, the old version marked consumed
/// by this pass, and a fresh version of the same description owned by it.
pub open spec fn write_image_ok(
    b0: BuilderModel,
    b1: BuilderModel,
    r: Result<ImageRef, FrameError>,
    i: usize,
    how: ImageRead,
    new_write: ImageWrite,
) -> bool {
    let m = b0.frame;
    let c = m.images[i as int].creator;
    let info = m.images[i as int].info;
    &&& r == Ok::<ImageRef, FrameError>(
        ImageRef { frame: m.frame_id, id: ResourceId(m.images.len() as usize) },
    )
    &&& b1.frame.edges == m.edges.push((b0.pass, c)).push((b0.pass, c))
    &&& b1.frame.tags == m.tags.push(PassDependency::ReadImage(i, how)).push(
        PassDependency::CopyImage(i, m.images.len() as usize),
    )
    &&& b1.frame.images == m.images.update(
        i as int,
        ImageResource {
            info,
            creator: c,
            consumer: Some(ResourceConsumer::Pass(b0.pass)),
            write_type: m.images[i as int].write_type,
        },
    ).push(ImageResource { info, creator: b0.pass, consumer: None, write_type: new_write })
}

/// A successful buffer write preserves well-formedness.
pub(crate) proof fn lemma_wf_after_write_buffer(
    m0: FrameModel,
    m1: FrameModel,
    i: usize,
    newi: usize,
    p: usize,
)
    requires
        wf_model(m0),
        i < m0.buffers.len(),
        newi == m0.buffers.len(),
        2 <= p < m0.stages.len(),
        m0.buffers[i as int].creator < p,
        m1.stages == m0.stages,
        m1.frame_id == m0.frame_id,
        m1.images == m0.images,
        m1.edges == m0.edges.push((p, m0.buffers[i as int].creator)).push(
            (p, m0.buffers[i as int].creator),
        ),
        m1.tags == m0.tags.push(PassDependency::ReadBuffer(i)).push(
            PassDependency::CopyBuffer(i, newi),
        ),
        m1.buffers == m0.buffers.update(
            i as int,
            BufferResource {
                info: m0.buffers[i as int].info,
                creator: m0.buffers[i as int].creator,
                consumer: Some(ResourceConsumer::Pass(p)),
            },
        ).push(
            BufferResource { info: m0.buffers[i as int].info, creator: p, consumer: None },
        ),
    ensures
        wf_model(m1),
{
    let n = m0.tags.len() as int;
    let c = m0.buffers[i as int].creator;
    assert(creator_ok(m0, c));
    assert(m1.edges[n] == (p, c) && m1.edges[n + 1] == (p, c));
    assert(m1.tags[n] == PassDependency::ReadBuffer(i));
    assert(m1.tags[n + 1] == PassDependency::CopyBuffer(i, newi));
    assert(m1.buffers[i as int].creator == c && m1.buffers[i as int].info == m0.buffers[
        i as int
    ].info);
    assert(m1.buffers[newi as int].creator == p);
    assert forall|j: int| 0 <= j < m1.edges.len() implies edge_ok(#[trigger] m1.edges[j]) by {
        if j < n {
            assert(m1.edges[j] == m0.edges[j]);
            assert(edge_ok(m0.edges[j]));
        }
    }
    assert forall|j: int| 0 <= j < m1.tags.len() implies tag_ok(m1, j) by {
        if j < n {
            assert(tag_ok(m0, j));
            assert(m1.edges[j] == m0.edges[j]);
            assert(m1.tags[j] == m0.tags[j]);
            lemma_tag_ok_same_resources(m0, m1, j, i, true);
        }
    }
    assert forall|j: int|
        0 <= j < m1.edges.len() implies (#[trigger] m1.edges[j]).0 < m1.stages.len()
        && m1.edges[j].1 < m1.stages.len() by {
        if j < n {
            assert(m1.edges[j] == m0.edges[j]);
        }
    }
    assert forall|k: int|
        0 <= k < m1.buffers.len() implies creator_ok(m1, (#[trigger] m1.buffers[k]).creator) by {
        if k < m0.buffers.len() && k != i {
            assert(m1.buffers[k] == m0.buffers[k]);
        }
    }
}

/// A successful image write preserves well-formedness.
pub(crate) proof fn lemma_wf_after_write_image(
    m0: FrameModel,
    m1: FrameModel,
    i: usize,
    newi: usize,
    p: usize,
)
    requires
        wf_model(m0),
        i < m0.images.len(),
        newi == m0.images.len(),
        2 <= p < m0.stages.len(),
        m0.images[i as int].creator < p,
        m1.stages == m0.stages,
        m1.frame_id == m0.frame_id,
        m1.buffers == m0.buffers,
        m1.edges == m0.edges.push((p, m0.images[i as int].creator)).push(
            (p, m0.images[i as int].creator),
        ),
        m1.tags.len() == m0.tags.len() + 2,
        forall|j: int| 0 <= j < m0.tags.len() ==> m1.tags[j] == m0.tags[j],
        m1.tags[m0.tags.len() as int] matches PassDependency::ReadImage(i2, _) && i2 == i,
        m1.tags[m0.tags.len() as int + 1] == PassDependency::CopyImage(i, newi),
        m1.images.len() == m0.images.len() + 1,
        forall|k: int| 0 <= k < m0.images.len() && k != i ==> m1.images[k] == m0.images[k],
        m1.images[i as int].creator == m0.images[i as int].creator,
        m1.images[i as int].info == m0.images[i as int].info,
        m1.images[newi as int].creator == p,
        m1.images[newi as int].info == m0.images[i as int].info,
    ensures
        wf_model(m1),
{
    let n = m0.tags.len() as int;
    let c = m0.images[i as int].creator;
    assert(creator_ok(m0, c));
    assert(m1.edges[n] == (p, c) && m1.edges[n + 1] == (p, c));
    assert forall|j: int| 0 <= j < m1.edges.len() implies edge_ok(#[trigger] m1.edges[j]) by {
        if j < n {
            assert(m1.edges[j] == m0.edges[j]);
            assert(edge_ok(m0.edges[j]));
        }
    }
    assert forall|j: int| 0 <= j < m1.tags.len() implies tag_ok(m1, j) by {
        if j < n {
            assert(tag_ok(m0, j));
            assert(m1.edges[j] == m0.edges[j]);
            assert(m1.tags[j] == m0.tags[j]);
            lemma_tag_ok_same_resources(m0, m1, j, i, false);
        }
    }
    assert forall|j: int|
        0 <= j < m1.edges.len() implies (#[trigger] m1.edges[j]).0 < m1.stages.len()
        && m1.edges[j].1 < m1.stages.len() by {
        if j < n {
            assert(m1.edges[j] == m0.edges[j]);
        }
    }
    assert forall|k: int|
        0 <= k < m1.images.len() implies creator_ok(m1, (#[trigger] m1.images[k]).creator) by {
        if k < m0.images.len() && k != i {
            assert(m1.images[k] == m0.images[k]);
        }
    }
}

/// Appending a node slot preserves well-formedness.
pub(crate) proof fn lemma_wf_grow_stage(m0: FrameModel, m1: FrameModel)
    requires
        wf_model(m0),
        m1.stages.len() == m0.stages.len() + 1,
        forall|k: int| 0 <= k < m0.stages.len() ==> m1.stages[k] == m0.stages[k],
        m1.frame_id == m0.frame_id,
        m1.edges == m0.edges,
        m1.tags == m0.tags,
        m1.buffers == m0.buffers,
        m1.images == m0.images,
    ensures
        wf_model(m1),
{
    assert forall|j: int| 0 <= j < m1.tags.len() implies tag_ok(m1, j) by {
        assert(tag_ok(m0, j));
    }
}

/// Re-stamping a non-sentinel node's classification preserves
/// well-formedness.
pub(crate) proof fn lemma_wf_set_stage(m0: FrameModel, m1: FrameModel, p: usize, s: FrameStage)
    requires
        wf_model(m0),
        p >= 2,
        p < m0.stages.len(),
        m1.stages == m0.stages.update(p as int, s),
        m1.frame_id == m0.frame_id,
        m1.edges == m0.edges,
        m1.tags == m0.tags,
        m1.buffers == m0.buffers,
        m1.images == m0.images,
    ensures
        wf_model(m1),
{
    assert forall|j: int| 0 <= j < m1.tags.len() implies tag_ok(m1, j) by {
        assert(tag_ok(m0, j));
    }
}

} // verus!
