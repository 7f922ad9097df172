//! The lifetime-overlap analysis that physical-resource aliasing is
//! decided by.
//!
//! A version's lifetime runs from its creator pass to the last pass that
//! reads or copies from it (the sink counts as a reader of frame outputs).
//! The forward test asks: is some reader of version `a` ordered no earlier
//! than the creator of version `b`? Ordering here is graph reachability on
//! the dependency edges — not a position in one arbitrarily chosen
//! topological order, which would only under-approximate — so a reader
//! counts when it transitively depends on `b`'s creator, or is that
//! creator itself. Callers combine the forward and the backward test:
//! two versions' storage may be shared only when the combined test is
//! false.

use vstd::prelude::*;

use crate::dag::{dag_edge_vec, dag_has_path};
use crate::graph::{FrameGraph, FrameModel};
use crate::reach::reaches;
use crate::resource::{
    BufferRef, FrameError, ImageRef, PassDependency, tag_reads_buffer, tag_reads_image,
};

verus! {

/// The edge at position `j` records a read (or the read half of a copy)
/// of buffer version `v`.
pub open spec fn buffer_reader_edge(m: FrameModel, j: int, v: usize) -> bool {
    &&& 0 <= j < m.edges.len()
    &&& tag_reads_buffer(m.tags[j], v)
}

/// The edge at position `j` records a read (or the read half of a copy)
/// of image version `v`.
pub open spec fn image_reader_edge(m: FrameModel, j: int, v: usize) -> bool {
    &&& 0 <= j < m.edges.len()
    &&& tag_reads_image(m.tags[j], v)
}

/// Some reader of buffer version `a` is ordered no earlier than the
/// creator of buffer version `b`: it transitively depends on that creator,
/// or is that creator itself.
pub open spec fn buffer_overlap_forward(m: FrameModel, a: usize, b: usize) -> bool {
    exists|j: int|
        #[trigger] buffer_reader_edge(m, j, a) && reaches(
            m.edges,
            m.edges[j].0,
            m.buffers[b as int].creator,
        )
}

/// Some reader of image version `a` is ordered no earlier than the
/// creator of image version `b`.
pub open spec fn image_overlap_forward(m: FrameModel, a: usize, b: usize) -> bool {
    exists|j: int|
        #[trigger] image_reader_edge(m, j, a) && reaches(
            m.edges,
            m.edges[j].0,
            m.images[b as int].creator,
        )
}

impl FrameGraph {
    /// The forward half of the buffer lifetime-overlap test.
    pub fn buffer_lifetime_overlap_forward(&self, a: &BufferRef, b: &BufferRef) -> (r: Result<
        bool,
        FrameError,
    >)
        requires
            self.wf(),
        ensures
            a.frame != self@.frame_id || b.frame != self@.frame_id ==> r == Err::<
                bool,
                FrameError,
            >(FrameError::DanglingReference),
            a.frame == self@.frame_id && b.frame == self@.frame_id && (a.id.0
                >= self@.buffers.len() || b.id.0 >= self@.buffers.len()) ==> r == Err::<
                bool,
                FrameError,
            >(FrameError::InvalidReference),
            a.frame == self@.frame_id && b.frame == self@.frame_id && a.id.0
                < self@.buffers.len() && b.id.0 < self@.buffers.len() ==> r == Ok::<
                bool,
                FrameError,
            >(buffer_overlap_forward(self@, a.id.0, b.id.0)),
    {
        proof {
            self.lemma_parts();
        }
        if a.frame != self.frame_id || b.frame != self.frame_id {
            return Err(FrameError::DanglingReference);
        }
        if a.id.0 >= self.buffers.len() || b.id.0 >= self.buffers.len() {
            return Err(FrameError::InvalidReference);
        }
        let cb = self.buffers[b.id.0].creator;
        let ev = dag_edge_vec(&self.dag);
        let mut j: usize = 0;
        while j < ev.len()
            invariant
                self.wf(),
                ev@ == self@.edges,
                self@.tags.len() == self@.edges.len(),
                j <= ev.len(),
                a.frame == self@.frame_id,
                b.frame == self@.frame_id,
                a.id.0 < self@.buffers.len(),
                b.id.0 < self@.buffers.len(),
                cb == self@.buffers[b.id.0 as int].creator,
                forall|k: int|
                    0 <= k < j ==> !(#[trigger] buffer_reader_edge(self@, k, a.id.0) && reaches(
                        self@.edges,
                        self@.edges[k].0,
                        cb,
                    )),
            decreases ev.len() - j,
        {
            proof {
                self.lemma_parts();
            }
            let reads = match self.tags[j] {
                PassDependency::ReadBuffer(k) => k == a.id.0,
                PassDependency::CopyBuffer(k, _) => k == a.id.0,
                _ => false,
            };
            if reads {
                let from = ev[j].0;
                if dag_has_path(&self.dag, from, cb) {
                    proof {
                        assert(buffer_reader_edge(self@, j as int, a.id.0));
                    }
                    return Ok(true);
                }
            }
            j += 1;
        }
        Ok(false)
    }

    /// The backward half of the buffer test: the forward test with the
    /// two versions swapped.
    pub fn buffer_lifetime_overlap_backward(&self, a: &BufferRef, b: &BufferRef) -> (r: Result<
        bool,
        FrameError,
    >)
        requires
            self.wf(),
        ensures
            a.frame != self@.frame_id || b.frame != self@.frame_id ==> r == Err::<
                bool,
                FrameError,
            >(FrameError::DanglingReference),
            a.frame == self@.frame_id && b.frame == self@.frame_id && (a.id.0
                >= self@.buffers.len() || b.id.0 >= self@.buffers.len()) ==> r == Err::<
                bool,
                FrameError,
            >(FrameError::InvalidReference),
            a.frame == self@.frame_id && b.frame == self@.frame_id && a.id.0
                < self@.buffers.len() && b.id.0 < self@.buffers.len() ==> r == Ok::<
                bool,
                FrameError,
            >(buffer_overlap_forward(self@, b.id.0, a.id.0)),
    {
        self.buffer_lifetime_overlap_forward(b, a)
    }

    /// The combined buffer test: the two versions' lifetimes overlap in
    /// the scheduled order. Their storage may be aliased only when this
    /// is `false`.
    pub fn buffers_overlap(&self, a: &BufferRef, b: &BufferRef) -> (r: Result<bool, FrameError>)
        requires
            self.wf(),
        ensures
            a.frame != self@.frame_id || b.frame != self@.frame_id ==> r == Err::<
                bool,
                FrameError,
            >(FrameError::DanglingReference),
            a.frame == self@.frame_id && b.frame == self@.frame_id && (a.id.0
                >= self@.buffers.len() || b.id.0 >= self@.buffers.len()) ==> r == Err::<
                bool,
                FrameError,
            >(FrameError::InvalidReference),
            a.frame == self@.frame_id && b.frame == self@.frame_id && a.id.0
                < self@.buffers.len() && b.id.0 < self@.buffers.len() ==> r == Ok::<
                bool,
                FrameError,
            >(
                buffer_overlap_forward(self@, a.id.0, b.id.0) && buffer_overlap_forward(
                    self@,
                    b.id.0,
                    a.id.0,
                ),
            ),
    {
        let fwd = match self.buffer_lifetime_overlap_forward(a, b) {
            Ok(v) => v,
            Err(e) => {
                return Err(e);
            },
        };
        let bwd = match self.buffer_lifetime_overlap_forward(b, a) {
            Ok(v) => v,
            Err(e) => {
                return Err(e);
            },
        };
        Ok(fwd && bwd)
    }

    /// The forward half of the image lifetime-overlap test.
    pub fn image_lifetime_overlap_forward(&self, a: &ImageRef, b: &ImageRef) -> (r: Result<
        bool,
        FrameError,
    >)
        requires
            self.wf(),
        ensures
            a.frame != self@.frame_id || b.frame != self@.frame_id ==> r == Err::<
                bool,
                FrameError,
            >(FrameError::DanglingReference),
            a.frame == self@.frame_id && b.frame == self@.frame_id && (a.id.0
                >= self@.images.len() || b.id.0 >= self@.images.len()) ==> r == Err::<
                bool,
                FrameError,
            >(FrameError::InvalidReference),
            a.frame == self@.frame_id && b.frame == self@.frame_id && a.id.0
                < self@.images.len() && b.id.0 < self@.images.len() ==> r == Ok::<
                bool,
                FrameError,
            >(image_overlap_forward(self@, a.id.0, b.id.0)),
    {
        proof {
            self.lemma_parts();
        }
        if a.frame != self.frame_id || b.frame != self.frame_id {
            return Err(FrameError::DanglingReference);
        }
        if a.id.0 >= self.images.len() || b.id.0 >= self.images.len() {
            return Err(FrameError::InvalidReference);
        }
        let cb = self.images[b.id.0].creator;
        let ev = dag_edge_vec(&self.dag);
        let mut j: usize = 0;
        while j < ev.len()
            invariant
                self.wf(),
                ev@ == self@.edges,
                self@.tags.len() == self@.edges.len(),
                j <= ev.len(),
                a.frame == self@.frame_id,
                b.frame == self@.frame_id,
                a.id.0 < self@.images.len(),
                b.id.0 < self@.images.len(),
                cb == self@.images[b.id.0 as int].creator,
                forall|k: int|
                    0 <= k < j ==> !(#[trigger] image_reader_edge(self@, k, a.id.0) && reaches(
                        self@.edges,
                        self@.edges[k].0,
                        cb,
                    )),
            decreases ev.len() - j,
        {
            proof {
                self.lemma_parts();
            }
            let reads = match self.tags[j] {
                PassDependency::ReadImage(k, _) => k == a.id.0,
                PassDependency::CopyImage(k, _) => k == a.id.0,
                _ => false,
            };
            if reads {
                let from = ev[j].0;
                if dag_has_path(&self.dag, from, cb) {
                    proof {
                        assert(image_reader_edge(self@, j as int, a.id.0));
                    }
                    return Ok(true);
                }
            }
            j += 1;
        }
        Ok(false)
    }

    /// The backward half of the image test: the forward test with the two
    /// versions swapped.
    pub fn image_lifetime_overlap_backward(&self, a: &ImageRef, b: &ImageRef) -> (r: Result<
        bool,
        FrameError,
    >)
        requires
            self.wf(),
        ensures
            a.frame != self@.frame_id || b.frame != self@.frame_id ==> r == Err::<
                bool,
                FrameError,
            >(FrameError::DanglingReference),
            a.frame == self@.frame_id && b.frame == self@.frame_id && (a.id.0
                >= self@.images.len() || b.id.0 >= self@.images.len()) ==> r == Err::<
                bool,
                FrameError,
            >(FrameError::InvalidReference),
            a.frame == self@.frame_id && b.frame == self@.frame_id && a.id.0
                < self@.images.len() && b.id.0 < self@.images.len() ==> r == Ok::<
                bool,
                FrameError,
            >(image_overlap_forward(self@, b.id.0, a.id.0)),
    {
        self.image_lifetime_overlap_forward(b, a)
    }

    /// The combined image test, as `buffers_overlap`.
    pub fn images_overlap(&self, a: &ImageRef, b: &ImageRef) -> (r: Result<bool, FrameError>)
        requires
            self.wf(),
        ensures
            a.frame != self@.frame_id || b.frame != self@.frame_id ==> r == Err::<
                bool,
                FrameError,
            >(FrameError::DanglingReference),
            a.frame == self@.frame_id && b.frame == self@.frame_id && (a.id.0
                >= self@.images.len() || b.id.0 >= self@.images.len()) ==> r == Err::<
                bool,
                FrameError,
            >(FrameError::InvalidReference),
            a.frame == self@.frame_id && b.frame == self@.frame_id && a.id.0
                < self@.images.len() && b.id.0 < self@.images.len() ==> r == Ok::<
                bool,
                FrameError,
            >(
                image_overlap_forward(self@, a.id.0, b.id.0) && image_overlap_forward(
                    self@,
                    b.id.0,
                    a.id.0,
                ),
            ),
    {
        let fwd = match self.image_lifetime_overlap_forward(a, b) {
            Ok(v) => v,
            Err(e) => {
                return Err(e);
            },
        };
        let bwd = match self.image_lifetime_overlap_forward(b, a) {
            Ok(v) => v,
            Err(e) => {
                return Err(e);
            },
        };
        Ok(fwd && bwd)
    }
}

} // verus!
