//! The vertex record that flows through the pipeline.
//!
//! The raw fields (model-space position, normal, texture coordinates,
//! intrinsic color) are set when the vertex is built and never mutated: the
//! transform stage returns a copy with the two transformed fields filled in.

use vstd::prelude::*;
use crate::color::Color;
use crate::geom::{Vec2Fx, Vec3Fx, vec3_within, MAT_LIM};

verus! {

/// A vertex: model-space data plus the screen-space fields the transform
/// stage fills in.
#[derive(Clone, Copy, Debug, PartialEq, Eq, Structural)]
pub struct Vertex {
    /// Model-space position, in thousandths of a unit.
    pub position: Vec3Fx,
    /// Model-space normal, in thousandths of a unit.
    pub normal: Vec3Fx,
    /// Texture coordinates, in thousandths of the [0, 1] range.
    pub tex_coords: Vec2Fx,
    /// Intrinsic color.
    pub color: Color,
    /// Screen-space position after the transform stage (x, y in pixel
    /// thousandths, z the depth metric).
    pub transformed_position: Vec3Fx,
    /// Normal after the normal-matrix transform.
    pub transformed_normal: Vec3Fx,
}

/// Whether the raw fields are inside the range the transform stage accepts:
/// two thousand units on every model-space axis.
pub open spec fn vertex_in_range(v: Vertex) -> bool {
    vec3_within(v.position, MAT_LIM as int) && vec3_within(v.normal, MAT_LIM as int)
}

impl Vertex {
    /// Builds a vertex from its model-space data; the transformed fields
    /// start at zero and are populated only by the transform stage.
    pub fn new(position: Vec3Fx, normal: Vec3Fx, tex_coords: Vec2Fx, color: Color) -> (v: Vertex)
        ensures
            v == (Vertex {
                position,
                normal,
                tex_coords,
                color,
                transformed_position: Vec3Fx { x: 0, y: 0, z: 0 },
                transformed_normal: Vec3Fx { x: 0, y: 0, z: 0 },
            }),
    {
        Vertex {
            position,
            normal,
            tex_coords,
            color,
            transformed_position: Vec3Fx { x: 0, y: 0, z: 0 },
            transformed_normal: Vec3Fx { x: 0, y: 0, z: 0 },
        }
    }
}

} // verus!
