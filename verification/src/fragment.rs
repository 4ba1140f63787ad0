//! The fragment: one pixel candidate emitted by the rasterizer, consumed by
//! the shading stage and then discarded.

use vstd::prelude::*;
use crate::color::Color;
use crate::geom::Vec3Fx;

verus! {

/// A pixel candidate inside a triangle, carrying the attributes
/// interpolated at its pixel.
#[derive(Clone, Copy, Debug, PartialEq, Eq, Structural)]
pub struct Fragment {
    /// Pixel column.
    pub x: usize,
    /// Pixel row.
    pub y: usize,
    /// Interpolated depth, in thousandths.
    pub depth: i64,
    /// Interpolated intrinsic color.
    pub color: Color,
    /// Interpolated transformed normal.
    pub normal: Vec3Fx,
    /// Interpolated lighting factor in [0, 1000].
    pub intensity: i64,
    /// Interpolated model-space position, for world-space procedural
    /// shading.
    pub vertex_position: Vec3Fx,
}

impl Fragment {
    /// Builds a fragment from its attributes.
    pub fn new(
        x: usize,
        y: usize,
        depth: i64,
        color: Color,
        normal: Vec3Fx,
        intensity: i64,
        vertex_position: Vec3Fx,
    ) -> (f: Fragment)
        ensures
            f == (Fragment { x, y, depth, color, normal, intensity, vertex_position }),
    {
        Fragment { x, y, depth, color, normal, intensity, vertex_position }
    }
}

} // verus!
