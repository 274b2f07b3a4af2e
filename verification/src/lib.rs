//! A verified render-graph compiler and scheduler for GPU command generation.
//!
//! The crate models GPU resources, the accesses render nodes make to them,
//! and compiles a declared graph of nodes into an executable layout:
//! a dependency analysis derives read/write hazards, a scheduler orders the
//! nodes into per-queue command batches linked by fences, an allocator
//! assigns aliased heap placements to transient resources, and a transition
//! generator emits the resource-state barriers between producers and
//! consumers.

pub mod access;
pub mod allocator;
pub mod analyze;
pub mod api;
pub mod barrier;
pub mod format;
pub mod graph;
pub mod render_graph;
pub mod render_states;
pub mod resource;
pub mod result;
pub mod runtime;
pub mod schedule;
