//! Core logic of a GPU-resident rendering engine.
//!
//! The library owns every decision the engine makes: device and surface
//! negotiation, the pooled sub-allocator for device memory, the
//! double-buffered frame-pacing state machine, the pipeline and mesh
//! registries, and the per-frame draw-command stream.  Everything that
//! talks to a graphics driver is kept outside; the library works on plain
//! values (handles are opaque integers, matrices are raw bit patterns)
//! and hands the caller an exact description of what to do.

pub mod commands;
pub mod device;
pub mod frame;
pub mod mesh;
pub mod pipelines;
pub mod pool;
pub mod renderer;
pub mod texture;
