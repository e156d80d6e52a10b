//! A voxel-world ray-marching engine.
//!
//! The engine is a pure function from a dense 3D grid of colored cells and a
//! camera orientation to a flat pixel buffer: a terrain generator fills the
//! grid from per-column heights, and a per-pixel 3D DDA ray march steps each
//! ray through the grid until it hits an occupied cell or leaves a bounded
//! radius. All arithmetic is integer fixed-point, so every component carries
//! a proved contract; a presentation layer around the library supplies the
//! heights and displays the buffers.

use vstd::prelude::*;

pub mod camera;
pub mod grid;
pub mod march;
pub mod render;
pub mod terrain;
pub mod trig;

verus! {

/// Why a configuration value or a grid access was rejected.
#[derive(Clone, Copy, Debug, PartialEq, Eq, Structural)]
pub enum EngineError {
    /// The grid half-extent is zero or larger than the supported maximum.
    BadHalfExtent,
    /// The height slice does not hold exactly one entry per grid column.
    BadHeights,
    /// The viewport is empty or larger than the supported maximum.
    BadViewport,
    /// A field-of-view span is zero.
    BadFieldOfView,
    /// The squared ray radius is zero or larger than the supported maximum.
    BadRadius,
    /// The ray origin lies outside the supported coordinate range.
    BadOrigin,
    /// A cell coordinate lies outside the grid.
    OutOfRange,
}

} // verus!
