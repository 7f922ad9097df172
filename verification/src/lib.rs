//! A verified frame-graph core: logical resources with SSA-style
//! versioning, an append-only acyclic pass-dependency graph, a
//! deterministic topological pass scheduler, and the lifetime-overlap
//! analysis that physical-resource aliasing is decided by.

pub mod builder;
pub mod dag;
pub mod engine;
pub mod guard;
pub mod graph;
pub mod overlap;
pub mod reach;
pub mod resource;
pub mod schedule;
pub mod style;
