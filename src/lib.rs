//! Turns styled text into positioned triangle meshes: contour reconstruction,
//! mesh assembly, a per-font glyph mesh cache, block layout and deferred retry.
use vstd::prelude::*;

pub mod cache;
pub mod geometry;
pub mod layout;
pub mod mesh;
pub mod path;
pub mod queue;

verus! {

} // verus!
