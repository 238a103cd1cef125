//! A minimal parametric modeling kernel.
//!
//! The kernel keeps a document of geometric objects (box, cylinder, sphere),
//! each with editable parameters, a property map and a placement, and
//! regenerates a triangulated surface mesh for each object on demand. All
//! scalar coordinates are carried as opaque bit patterns of IEEE floats
//! (`u32` for 32-bit values, `u64` for 64-bit values): the kernel owns the
//! data model, the mesh topology and the recompute pipeline, while the host
//! evaluates the numeric scalar tables the generators consume.

pub mod document;
pub mod geometry;
pub mod math;
pub mod object;
pub mod property;
