//! The vertex transform stage: model, view, projection and viewport
//! matrices applied in order, with perspective division and the
//! normal-matrix transform.

use vstd::prelude::*;
use crate::fixed::{sdiv, sabs};
use crate::geom::{Vec3Fx, Vec4Fx, Mat3Fx, Mat4Fx, mat4_within, mat3_within, vec3_within,
    vec4_within, row4, apply4, apply3, spec_sat, spec_det3, inv_entry, mat4_mul_vec4,
    mat3_mul_vec3, invert3, saturate, lemma_row4_bound, MAT_LIM, COORD_SAT};
use crate::vertex::{Vertex, vertex_in_range};

verus! {

/// The per-draw-call parameters: the four transform matrices and the time
/// value.  Noise is an external collaborator: its samples are handed to the
/// shading stage per fragment, so no sampler lives here.
#[derive(Clone, Copy, Debug, PartialEq, Eq, Structural)]
pub struct Uniforms {
    pub model_matrix: Mat4Fx,
    pub view_matrix: Mat4Fx,
    pub projection_matrix: Mat4Fx,
    pub viewport_matrix: Mat4Fx,
    pub time: u32,
}

/// Whether all four matrices are inside the range the stage accepts.
pub open spec fn uniforms_within(u: Uniforms) -> bool {
    mat4_within(u.model_matrix, MAT_LIM as int) && mat4_within(u.view_matrix, MAT_LIM as int)
        && mat4_within(u.projection_matrix, MAT_LIM as int) && mat4_within(
        u.viewport_matrix,
        MAT_LIM as int,
    )
}

/// The clip-space position of a vertex: the homogeneous model-space point
/// pushed through model, view and projection in turn.
pub open spec fn clip_position(v: Vertex, u: Uniforms) -> (int, int, int, int) {
    let p1 = apply4(u.model_matrix, v.position.x as int, v.position.y as int, v.position.z as int,
        1000);
    let p2 = apply4(u.view_matrix, p1.0, p1.1, p1.2, p1.3);
    apply4(u.projection_matrix, p2.0, p2.1, p2.2, p2.3)
}

/// The screen-space position: clip coordinates divided by their homogeneous
/// component, mapped by the viewport matrix, saturated.  A zero homogeneous
/// component is a degenerate projection; the divide is skipped and the clip
/// coordinates stand in, saturated, rather than faulting.
pub open spec fn spec_transform_position(v: Vertex, u: Uniforms) -> Vec3Fx {
    let c = clip_position(v, u);
    if c.3 == 0 {
        Vec3Fx { x: spec_sat(c.0) as i64, y: spec_sat(c.1) as i64, z: spec_sat(c.2) as i64 }
    } else {
        let nx = spec_sat(sdiv(c.0 * 1000, c.3));
        let ny = spec_sat(sdiv(c.1 * 1000, c.3));
        let nz = spec_sat(sdiv(c.2 * 1000, c.3));
        let s = apply4(u.viewport_matrix, nx, ny, nz, 1000);
        Vec3Fx { x: spec_sat(s.0) as i64, y: spec_sat(s.1) as i64, z: spec_sat(s.2) as i64 }
    }
}

/// The normal matrix: the transpose of the model matrix's upper-left block,
/// inverted; where no inverse exists the identity stands in.
pub open spec fn spec_normal_matrix(model: Mat4Fx) -> Mat3Fx {
    let t = Mat3Fx {
        m00: model.m00,
        m01: model.m10,
        m02: model.m20,
        m10: model.m01,
        m11: model.m11,
        m12: model.m21,
        m20: model.m02,
        m21: model.m12,
        m22: model.m22,
    };
    let det = spec_det3(t);
    if det == 0 {
        Mat3Fx { m00: 1000, m01: 0, m02: 0, m10: 0, m11: 1000, m12: 0, m20: 0, m21: 0, m22: 1000 }
    } else {
        Mat3Fx {
            m00: inv_entry(t.m11 * t.m22 - t.m12 * t.m21, det) as i64,
            m01: inv_entry(t.m02 * t.m21 - t.m01 * t.m22, det) as i64,
            m02: inv_entry(t.m01 * t.m12 - t.m02 * t.m11, det) as i64,
            m10: inv_entry(t.m12 * t.m20 - t.m10 * t.m22, det) as i64,
            m11: inv_entry(t.m00 * t.m22 - t.m02 * t.m20, det) as i64,
            m12: inv_entry(t.m02 * t.m10 - t.m00 * t.m12, det) as i64,
            m20: inv_entry(t.m10 * t.m21 - t.m11 * t.m20, det) as i64,
            m21: inv_entry(t.m01 * t.m20 - t.m00 * t.m21, det) as i64,
            m22: inv_entry(t.m00 * t.m11 - t.m01 * t.m10, det) as i64,
        }
    }
}

/// The transformed normal: the vertex normal pushed through the normal
/// matrix, saturated to the coordinate window.
pub open spec fn spec_transform_normal(v: Vertex, u: Uniforms) -> Vec3Fx {
    let nm = spec_normal_matrix(u.model_matrix);
    let n = apply3(nm, v.normal.x as int, v.normal.y as int, v.normal.z as int);
    Vec3Fx { x: spec_sat(n.0) as i64, y: spec_sat(n.1) as i64, z: spec_sat(n.2) as i64 }
}

/// The viewport matrix for a target of the given pixel size: it maps
/// normalized device coordinates x in [-1, 1] to [0, width] and y in
/// [-1, 1] to [height, 0], flipping y to match the top-left pixel origin.
pub fn create_viewport_matrix(width: i64, height: i64) -> (m: Mat4Fx)
    requires
        0 <= width <= 4000,
        0 <= height <= 4000,
    ensures
        m == (Mat4Fx {
            m00: (width * 500) as i64,
            m01: 0,
            m02: 0,
            m03: (width * 500) as i64,
            m10: 0,
            m11: (-(height * 500)) as i64,
            m12: 0,
            m13: (height * 500) as i64,
            m20: 0,
            m21: 0,
            m22: 1000,
            m23: 0,
            m30: 0,
            m31: 0,
            m32: 0,
            m33: 1000,
        }),
        mat4_within(m, MAT_LIM as int),
{
    Mat4Fx {
        m00: width * 500,
        m01: 0,
        m02: 0,
        m03: width * 500,
        m10: 0,
        m11: -(height * 500),
        m12: 0,
        m13: height * 500,
        m20: 0,
        m21: 0,
        m22: 1000,
        m23: 0,
        m30: 0,
        m31: 0,
        m32: 0,
        m33: 1000,
    }
}

/// Clips a wide quotient to the coordinate saturation window.
fn saturate_wide(v: i128) -> (r: i64)
    ensures
        r as int == spec_sat(v as int),
        sabs(r as int) <= COORD_SAT,
{
    if v > COORD_SAT as i128 {
        COORD_SAT
    } else if v < -(COORD_SAT as i128) {
        -COORD_SAT
    } else {
        v as i64
    }
}

/// The vertex transform stage: returns a copy of the vertex with its
/// screen-space position and transformed normal filled in; the raw fields
/// are passed through unchanged.
pub fn vertex_shader(vertex: &Vertex, uniforms: &Uniforms) -> (out: Vertex)
    requires
        vertex_in_range(*vertex),
        uniforms_within(*uniforms),
    ensures
        out.position == vertex.position,
        out.normal == vertex.normal,
        out.tex_coords == vertex.tex_coords,
        out.color == vertex.color,
        out.transformed_position == spec_transform_position(*vertex, *uniforms),
        out.transformed_normal == spec_transform_normal(*vertex, *uniforms),
        vec3_within(out.transformed_position, COORD_SAT as int),
        vec3_within(out.transformed_normal, COORD_SAT as int),
{
    let p = Vec4Fx { x: vertex.position.x, y: vertex.position.y, z: vertex.position.z, w: 1000 };
    let t1 = mat4_mul_vec4(&uniforms.model_matrix, &p);
    proof {
        lemma_vec4_rows_bound(uniforms.model_matrix, p, MAT_LIM as int, 16_000_000_000);
    }
    let t2 = mat4_mul_vec4(&uniforms.view_matrix, &t1);
    proof {
        lemma_vec4_rows_bound(uniforms.view_matrix, t1, 16_000_000_000, 128_000_000_000_000);
    }
    let t3 = mat4_mul_vec4(&uniforms.projection_matrix, &t2);
    proof {
        lemma_vec4_rows_bound(uniforms.projection_matrix, t2, 128_000_000_000_000,
            1_024_000_000_000_000_000);
    }
    let transformed_position = if t3.w == 0 {
        Vec3Fx { x: saturate(t3.x), y: saturate(t3.y), z: saturate(t3.z) }
    } else {
        let nx = saturate_wide(crate::fixed::div_signed(t3.x as i128 * 1000, t3.w as i128));
        let ny = saturate_wide(crate::fixed::div_signed(t3.y as i128 * 1000, t3.w as i128));
        let nz = saturate_wide(crate::fixed::div_signed(t3.z as i128 * 1000, t3.w as i128));
        let n4 = Vec4Fx { x: nx, y: ny, z: nz, w: 1000 };
        let s = mat4_mul_vec4(&uniforms.viewport_matrix, &n4);
        Vec3Fx { x: saturate(s.x), y: saturate(s.y), z: saturate(s.z) }
    };
    let m3 = uniforms.model_matrix.upper_left();
    let t = m3.transpose();
    let normal_matrix = match invert3(&t) {
        Some(inv) => inv,
        None => Mat3Fx::identity(),
    };
    let tn_raw = mat3_mul_vec3(&normal_matrix, &vertex.normal);
    let transformed_normal = Vec3Fx {
        x: saturate(tn_raw.x),
        y: saturate(tn_raw.y),
        z: saturate(tn_raw.z),
    };
    proof {
        let sn = spec_transform_normal(*vertex, *uniforms);
        assert(transformed_normal.x as int == sn.x as int);
        assert(transformed_normal.y as int == sn.y as int);
        assert(transformed_normal.z as int == sn.z as int);
    }
    Vertex {
        position: vertex.position,
        normal: vertex.normal,
        tex_coords: vertex.tex_coords,
        color: vertex.color,
        transformed_position,
        transformed_normal,
    }
}

/// Carries a per-component bound across one matrix application.
proof fn lemma_vec4_rows_bound(m: Mat4Fx, v: Vec4Fx, lv: int, lim: int)
    requires
        mat4_within(m, MAT_LIM as int),
        vec4_within(v, lv),
        0 <= lv,
        0 <= lim,
        4 * (MAT_LIM as int) * lv <= lim * 1000,
    ensures
        sabs(row4(m.m00 as int, m.m01 as int, m.m02 as int, m.m03 as int, v)) <= lim,
        sabs(row4(m.m10 as int, m.m11 as int, m.m12 as int, m.m13 as int, v)) <= lim,
        sabs(row4(m.m20 as int, m.m21 as int, m.m22 as int, m.m23 as int, v)) <= lim,
        sabs(row4(m.m30 as int, m.m31 as int, m.m32 as int, m.m33 as int, v)) <= lim,
{
    lemma_row4_bound(m.m00 as int, m.m01 as int, m.m02 as int, m.m03 as int, v, MAT_LIM as int, lv,
        lim);
    lemma_row4_bound(m.m10 as int, m.m11 as int, m.m12 as int, m.m13 as int, v, MAT_LIM as int, lv,
        lim);
    lemma_row4_bound(m.m20 as int, m.m21 as int, m.m22 as int, m.m23 as int, v, MAT_LIM as int, lv,
        lim);
    lemma_row4_bound(m.m30 as int, m.m31 as int, m.m32 as int, m.m33 as int, v, MAT_LIM as int, lv,
        lim);
}

} // verus!
