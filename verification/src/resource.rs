//! The data model of logical resources: immutable per-version descriptions,
//! references into the registry, and the error taxonomy of the frame graph.
//!
//! A logical resource (buffer or image) is one *version* of a piece of GPU
//! data. Writing never mutates a version: it produces a fresh version and
//! records the old one's `consumer`. Versions are referenced by index into
//! the owning frame's registry, tagged with that frame's identity so that a
//! reference from another frame is rejected rather than read.

use vstd::prelude::*;

verus! {

/// A usage error detected by the frame graph.
///
/// All of these are programming errors of the caller, surfaced fail-fast:
/// - `DanglingReference`: a resource reference made by a different frame.
/// - `InvalidReference`: a resource index outside the registry.
/// - `GraphCycle`: an edge that would close a cycle (a pass reading a
///   version it created itself); the graph refuses it.
/// - `DoubleWrite`: writing a version that already has a consumer. The
///   policy of this library is to reject such writes outright rather than
///   to allow diamond version histories.
#[derive(Clone, Copy, PartialEq, Eq, Debug)]
pub enum FrameError {
    DanglingReference,
    InvalidReference,
    GraphCycle,
    DoubleWrite,
}

/// Immutable description of one buffer version.
#[derive(Clone, Copy, PartialEq, Eq, Debug)]
pub struct BufferInfo {
    /// Size of the buffer in bytes.
    pub size: u64,
    /// Stride of one element in bytes.
    pub stride: u64,
    /// Usage bits, in the encoding of the backend that will allocate it.
    pub usage: u32,
}

/// Dimensionality and extent of an image.
#[derive(Clone, Copy, PartialEq, Eq, Debug)]
pub enum ImageKind {
    D1(u32),
    D2(u32, u32),
    D3(u32, u32, u32),
}

/// Immutable description of one image version.
#[derive(Clone, Copy, PartialEq, Eq, Debug)]
pub struct ImageInfo {
    pub kind: ImageKind,
    pub mip_levels: u8,
    /// Pixel format, in the encoding of the backend that will allocate it.
    pub format: u32,
    /// Usage bits, in the encoding of the backend that will allocate it.
    pub usage: u32,
}

/// The layout an image is read in by a plain (non-attachment) dependency.
#[derive(Clone, Copy, PartialEq, Eq, Debug)]
pub enum ImageLayout {
    Color,
    Resolve,
    DepthStencil,
    Texture,
}

/// Render-attachment metadata carried by attachment reads and writes.
#[derive(Clone, Copy, PartialEq, Eq, Debug)]
pub struct AttachmentInfo {
    /// Pixel format override, in the backend's encoding, if any.
    pub format: Option<u32>,
    /// Sample count.
    pub samples: u8,
}

/// How a pass reads an image version: as a plain data dependency in a given
/// layout, or bound as a render attachment.
#[derive(Clone, Copy, PartialEq, Eq, Debug)]
pub enum ImageRead {
    Transfer(ImageLayout),
    Attachment(AttachmentInfo),
}

/// How an image version is produced: by plain transfer-style writes, or as a
/// render attachment (with its metadata and a clear-on-load flag).
#[derive(Clone, Copy, PartialEq, Eq, Debug)]
pub enum ImageWrite {
    Transfer,
    Attachment(AttachmentInfo, bool),
}

/// The pass that produced a resource version: the graph source for
/// externally supplied inputs, or a registered pass by node index.
#[derive(Clone, Copy, PartialEq, Eq, Debug)]
pub enum ResourceCreator {
    Input,
    Pass(usize),
}

/// What superseded a resource version: the later pass that wrote over it.
#[derive(Clone, Copy, PartialEq, Eq, Debug)]
pub enum ResourceConsumer {
    Pass(usize),
}

/// The raw index of a resource version within one registry column.
#[derive(Clone, Copy, PartialEq, Eq, Debug)]
pub struct ResourceId(pub usize);

/// Reference to one buffer version, valid only for the frame that made it.
#[derive(Clone, Copy, PartialEq, Eq, Debug)]
pub struct BufferRef {
    /// Identity of the owning frame.
    pub frame: u64,
    /// Index of the version in the owning frame's buffer registry.
    pub id: ResourceId,
}

/// Reference to one image version, valid only for the frame that made it.
#[derive(Clone, Copy, PartialEq, Eq, Debug)]
pub struct ImageRef {
    /// Identity of the owning frame.
    pub frame: u64,
    /// Index of the version in the owning frame's image registry.
    pub id: ResourceId,
}

/// Identifies a pass node in the dependency graph.
#[derive(Clone, Copy, PartialEq, Eq, Debug)]
pub struct PassRef(pub usize);

/// The `(creating pass, local ordinal)` identity of a resource version:
/// which node created it, and how many versions of the same column that
/// node had created before it.
#[derive(Clone, Copy, PartialEq, Eq, Debug)]
pub struct ResourceHandle(pub usize, pub usize);

/// One dependency edge's payload: which resource version the edge's source
/// pass reads, or which old version it copies into which new one.
#[derive(Clone, Copy, PartialEq, Eq, Debug)]
pub enum PassDependency {
    ReadBuffer(usize),
    ReadImage(usize, ImageRead),
    CopyBuffer(usize, usize),
    CopyImage(usize, usize),
}

/// One buffer version in the registry.
#[derive(Clone, Copy, PartialEq, Eq, Debug)]
pub struct BufferResource {
    pub info: BufferInfo,
    /// Node index of the pass that produced this version (the graph source
    /// node for external inputs).
    pub creator: usize,
    /// Set once, by a write: the pass that overwrote this version.
    pub consumer: Option<ResourceConsumer>,
}

/// One image version in the registry.
#[derive(Clone, Copy, PartialEq, Eq, Debug)]
pub struct ImageResource {
    pub info: ImageInfo,
    /// Node index of the pass that produced this version (the graph source
    /// node for external inputs).
    pub creator: usize,
    /// Set once, by a write: the pass that overwrote this version.
    pub consumer: Option<ResourceConsumer>,
    /// How this version is produced.
    pub write_type: ImageWrite,
}

/// The kind of node a graph slot holds: one of the two sentinels, a
/// registered pass of either classification, or the placeholder a node
/// carries between its allocation and the end of its builder session.
#[derive(Clone, Copy, PartialEq, Eq, Debug)]
pub enum FrameStage {
    Top,
    Bottom,
    Invalid,
    Graphics,
    Compute,
}

/// True for the tags under which an edge records a read of buffer
/// version `i` (a plain read, or the read half of a copy).
pub open spec fn tag_reads_buffer(t: PassDependency, i: usize) -> bool {
    match t {
        PassDependency::ReadBuffer(k) => k == i,
        PassDependency::CopyBuffer(k, _) => k == i,
        _ => false,
    }
}

/// True for the tags under which an edge records a read of image
/// version `i` (a plain read, or the read half of a copy).
pub open spec fn tag_reads_image(t: PassDependency, i: usize) -> bool {
    match t {
        PassDependency::ReadImage(k, _) => k == i,
        PassDependency::CopyImage(k, _) => k == i,
        _ => false,
    }
}

} // verus!
