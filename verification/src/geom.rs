//! Fixed-point vectors and matrices for the vertex transform stage.
//!
//! Components and matrix entries carry thousandths of a unit.  A matrix is
//! applied to a vector by forming the exact integer dot product of each row
//! and dividing once by 1000, truncating toward zero.  Screen-space results
//! are saturated to `COORD_SAT`, a bound far beyond any visible coordinate,
//! so that every later stage works on values it can square without
//! overflowing.

use vstd::prelude::*;
use crate::fixed::{tdiv, sdiv, sabs, lemma_mul_bound, lemma_tdiv_scaled, lemma_tdiv_bounds,
    div_trunc, div_signed};

verus! {

/// The largest matrix entry the transform stage accepts: two thousand
/// units, enough for the viewport matrix of a four-thousand-pixel target.
pub const MAT_LIM: i64 = 2_000_000;

/// The largest vector component the transform stage accepts.
pub const VEC_LIM: i64 = 1_000_000_000_000_000;

/// The saturation bound for computed coordinates: one billion units, far
/// outside any frame buffer, yet small enough to square safely.
pub const COORD_SAT: i64 = 1_000_000_000_000;

/// A two-component fixed-point vector (texture coordinates).
#[derive(Clone, Copy, Debug, PartialEq, Eq, Structural)]
pub struct Vec2Fx {
    pub x: i64,
    pub y: i64,
}

/// A three-component fixed-point vector.
#[derive(Clone, Copy, Debug, PartialEq, Eq, Structural)]
pub struct Vec3Fx {
    pub x: i64,
    pub y: i64,
    pub z: i64,
}

/// A four-component fixed-point vector (homogeneous coordinates).
#[derive(Clone, Copy, Debug, PartialEq, Eq, Structural)]
pub struct Vec4Fx {
    pub x: i64,
    pub y: i64,
    pub z: i64,
    pub w: i64,
}

/// A 3 by 3 fixed-point matrix, row major.
#[derive(Clone, Copy, Debug, PartialEq, Eq, Structural)]
pub struct Mat3Fx {
    pub m00: i64,
    pub m01: i64,
    pub m02: i64,
    pub m10: i64,
    pub m11: i64,
    pub m12: i64,
    pub m20: i64,
    pub m21: i64,
    pub m22: i64,
}

/// A 4 by 4 fixed-point matrix, row major.
#[derive(Clone, Copy, Debug, PartialEq, Eq, Structural)]
pub struct Mat4Fx {
    pub m00: i64,
    pub m01: i64,
    pub m02: i64,
    pub m03: i64,
    pub m10: i64,
    pub m11: i64,
    pub m12: i64,
    pub m13: i64,
    pub m20: i64,
    pub m21: i64,
    pub m22: i64,
    pub m23: i64,
    pub m30: i64,
    pub m31: i64,
    pub m32: i64,
    pub m33: i64,
}

/// Whether every entry of a 4 by 4 matrix is within the given magnitude.
pub open spec fn mat4_within(m: Mat4Fx, lim: int) -> bool {
    sabs(m.m00 as int) <= lim && sabs(m.m01 as int) <= lim && sabs(m.m02 as int) <= lim && sabs(
        m.m03 as int,
    ) <= lim && sabs(m.m10 as int) <= lim && sabs(m.m11 as int) <= lim && sabs(m.m12 as int) <= lim
        && sabs(m.m13 as int) <= lim && sabs(m.m20 as int) <= lim && sabs(m.m21 as int) <= lim
        && sabs(m.m22 as int) <= lim && sabs(m.m23 as int) <= lim && sabs(m.m30 as int) <= lim
        && sabs(m.m31 as int) <= lim && sabs(m.m32 as int) <= lim && sabs(m.m33 as int) <= lim
}

/// Whether every entry of a 3 by 3 matrix is within the given magnitude.
pub open spec fn mat3_within(m: Mat3Fx, lim: int) -> bool {
    sabs(m.m00 as int) <= lim && sabs(m.m01 as int) <= lim && sabs(m.m02 as int) <= lim && sabs(
        m.m10 as int,
    ) <= lim && sabs(m.m11 as int) <= lim && sabs(m.m12 as int) <= lim && sabs(m.m20 as int) <= lim
        && sabs(m.m21 as int) <= lim && sabs(m.m22 as int) <= lim
}

/// Whether every component of a four-vector is within the given magnitude.
pub open spec fn vec4_within(v: Vec4Fx, lim: int) -> bool {
    sabs(v.x as int) <= lim && sabs(v.y as int) <= lim && sabs(v.z as int) <= lim && sabs(
        v.w as int,
    ) <= lim
}

/// Whether every component of a three-vector is within the given magnitude.
pub open spec fn vec3_within(v: Vec3Fx, lim: int) -> bool {
    sabs(v.x as int) <= lim && sabs(v.y as int) <= lim && sabs(v.z as int) <= lim
}

/// One row of a matrix applied to a four-vector: the exact dot product,
/// scaled back to thousandths by one truncating division.
pub open spec fn row4(a: int, b: int, c: int, d: int, v: Vec4Fx) -> int {
    tdiv(a * v.x + b * v.y + c * v.z + d * v.w, 1000)
}

/// One row of a matrix applied to a three-vector.
pub open spec fn row3(a: int, b: int, c: int, v: Vec3Fx) -> int {
    tdiv(a * v.x + b * v.y + c * v.z, 1000)
}

/// A 4 by 4 matrix applied to four integer coordinates, component form.
pub open spec fn apply4(m: Mat4Fx, x: int, y: int, z: int, w: int) -> (int, int, int, int) {
    (
        tdiv(m.m00 * x + m.m01 * y + m.m02 * z + m.m03 * w, 1000),
        tdiv(m.m10 * x + m.m11 * y + m.m12 * z + m.m13 * w, 1000),
        tdiv(m.m20 * x + m.m21 * y + m.m22 * z + m.m23 * w, 1000),
        tdiv(m.m30 * x + m.m31 * y + m.m32 * z + m.m33 * w, 1000),
    )
}

/// A 3 by 3 matrix applied to three integer coordinates, component form.
pub open spec fn apply3(m: Mat3Fx, x: int, y: int, z: int) -> (int, int, int) {
    (
        tdiv(m.m00 * x + m.m01 * y + m.m02 * z, 1000),
        tdiv(m.m10 * x + m.m11 * y + m.m12 * z, 1000),
        tdiv(m.m20 * x + m.m21 * y + m.m22 * z, 1000),
    )
}

/// A coordinate clipped to the saturation window [-COORD_SAT, COORD_SAT].
pub open spec fn spec_sat(v: int) -> int {
    if v > COORD_SAT as int {
        COORD_SAT as int
    } else if v < -(COORD_SAT as int) {
        -(COORD_SAT as int)
    } else {
        v
    }
}

/// Clips a computed coordinate to the saturation window.
pub fn saturate(v: i64) -> (r: i64)
    ensures
        r == spec_sat(v as int),
        sabs(r as int) <= COORD_SAT,
{
    if v > COORD_SAT {
        COORD_SAT
    } else if v < -COORD_SAT {
        -COORD_SAT
    } else {
        v
    }
}

/// The determinant of a 3 by 3 fixed-point matrix, in raw (milli cubed)
/// units.
pub open spec fn spec_det3(m: Mat3Fx) -> int {
    m.m00 * (m.m11 * m.m22 - m.m12 * m.m21) - m.m01 * (m.m10 * m.m22 - m.m12 * m.m20) + m.m02 * (
    m.m10 * m.m21 - m.m11 * m.m20)
}

impl Vec2Fx {
    /// Builds a vector from its components.
    pub fn new(x: i64, y: i64) -> (v: Vec2Fx)
        ensures
            v == (Vec2Fx { x, y }),
    {
        Vec2Fx { x, y }
    }
}

impl Vec3Fx {
    /// Builds a vector from its components.
    pub fn new(x: i64, y: i64, z: i64) -> (v: Vec3Fx)
        ensures
            v == (Vec3Fx { x, y, z }),
    {
        Vec3Fx { x, y, z }
    }
}

impl Vec4Fx {
    /// Builds a vector from its components.
    pub fn new(x: i64, y: i64, z: i64, w: i64) -> (v: Vec4Fx)
        ensures
            v == (Vec4Fx { x, y, z, w }),
    {
        Vec4Fx { x, y, z, w }
    }
}

/// A term-by-term bound on the four-row dot product, and the bound the
/// scaled-back quotient inherits from it.
pub proof fn lemma_row4_bound(a: int, b: int, c: int, d: int, v: Vec4Fx, lm: int, lv: int, lim: int)
    requires
        0 <= lm,
        0 <= lv,
        0 <= lim,
        4 * lm * lv <= lim * 1000,
        sabs(a) <= lm,
        sabs(b) <= lm,
        sabs(c) <= lm,
        sabs(d) <= lm,
        vec4_within(v, lv),
    ensures
        sabs(a * v.x) <= lm * lv,
        sabs(b * v.y) <= lm * lv,
        sabs(c * v.z) <= lm * lv,
        sabs(d * v.w) <= lm * lv,
        sabs(a * v.x + b * v.y + c * v.z + d * v.w) <= 4 * lm * lv,
        sabs(row4(a, b, c, d, v)) <= lim,
{
    lemma_mul_bound(a, v.x as int, lm, lv);
    lemma_mul_bound(b, v.y as int, lm, lv);
    lemma_mul_bound(c, v.z as int, lm, lv);
    lemma_mul_bound(d, v.w as int, lm, lv);
    let s = a * v.x + b * v.y + c * v.z + d * v.w;
    assert(sabs(s) <= 4 * (lm * lv));
    assert(4 * (lm * lv) == 4 * lm * lv) by (nonlinear_arith);
    lemma_tdiv_scaled(s, 1000, lim);
}

/// A term-by-term bound on the three-row dot product, and the bound the
/// scaled-back quotient inherits from it.
pub proof fn lemma_row3_bound(a: int, b: int, c: int, v: Vec3Fx, lm: int, lv: int, lim: int)
    requires
        0 <= lm,
        0 <= lv,
        0 <= lim,
        3 * lm * lv <= lim * 1000,
        sabs(a) <= lm,
        sabs(b) <= lm,
        sabs(c) <= lm,
        vec3_within(v, lv),
    ensures
        sabs(a * v.x) <= lm * lv,
        sabs(b * v.y) <= lm * lv,
        sabs(c * v.z) <= lm * lv,
        sabs(a * v.x + b * v.y + c * v.z) <= 3 * lm * lv,
        sabs(row3(a, b, c, v)) <= lim,
{
    lemma_mul_bound(a, v.x as int, lm, lv);
    lemma_mul_bound(b, v.y as int, lm, lv);
    lemma_mul_bound(c, v.z as int, lm, lv);
    let s = a * v.x + b * v.y + c * v.z;
    assert(sabs(s) <= 3 * (lm * lv));
    assert(3 * (lm * lv) == 3 * lm * lv) by (nonlinear_arith);
    lemma_tdiv_scaled(s, 1000, lim);
}

/// Applies a 4 by 4 matrix to a homogeneous vector: each component is the
/// row dot product scaled back to thousandths.
pub fn mat4_mul_vec4(m: &Mat4Fx, v: &Vec4Fx) -> (r: Vec4Fx)
    requires
        mat4_within(*m, MAT_LIM as int),
        vec4_within(*v, VEC_LIM as int),
    ensures
        r.x == row4(m.m00 as int, m.m01 as int, m.m02 as int, m.m03 as int, *v),
        r.y == row4(m.m10 as int, m.m11 as int, m.m12 as int, m.m13 as int, *v),
        r.z == row4(m.m20 as int, m.m21 as int, m.m22 as int, m.m23 as int, *v),
        r.w == row4(m.m30 as int, m.m31 as int, m.m32 as int, m.m33 as int, *v),
        vec4_within(r, 8_000_000_000_000_000_000),
{
    proof {
        lemma_row4_bound(m.m00 as int, m.m01 as int, m.m02 as int, m.m03 as int, *v,
            MAT_LIM as int, VEC_LIM as int, 8_000_000_000_000_000_000);
        lemma_row4_bound(m.m10 as int, m.m11 as int, m.m12 as int, m.m13 as int, *v,
            MAT_LIM as int, VEC_LIM as int, 8_000_000_000_000_000_000);
        lemma_row4_bound(m.m20 as int, m.m21 as int, m.m22 as int, m.m23 as int, *v,
            MAT_LIM as int, VEC_LIM as int, 8_000_000_000_000_000_000);
        lemma_row4_bound(m.m30 as int, m.m31 as int, m.m32 as int, m.m33 as int, *v,
            MAT_LIM as int, VEC_LIM as int, 8_000_000_000_000_000_000);
    }
    let sx: i128 = m.m00 as i128 * v.x as i128 + m.m01 as i128 * v.y as i128 + m.m02 as i128
        * v.z as i128 + m.m03 as i128 * v.w as i128;
    let sy: i128 = m.m10 as i128 * v.x as i128 + m.m11 as i128 * v.y as i128 + m.m12 as i128
        * v.z as i128 + m.m13 as i128 * v.w as i128;
    let sz: i128 = m.m20 as i128 * v.x as i128 + m.m21 as i128 * v.y as i128 + m.m22 as i128
        * v.z as i128 + m.m23 as i128 * v.w as i128;
    let sw: i128 = m.m30 as i128 * v.x as i128 + m.m31 as i128 * v.y as i128 + m.m32 as i128
        * v.z as i128 + m.m33 as i128 * v.w as i128;
    let rx = div_trunc(sx, 1000);
    let ry = div_trunc(sy, 1000);
    let rz = div_trunc(sz, 1000);
    let rw = div_trunc(sw, 1000);
    Vec4Fx { x: rx as i64, y: ry as i64, z: rz as i64, w: rw as i64 }
}

/// Applies a 3 by 3 matrix (the normal matrix, whose entries may be as
/// large as the saturation bound) to a model-space vector.
pub fn mat3_mul_vec3(m: &Mat3Fx, v: &Vec3Fx) -> (r: Vec3Fx)
    requires
        mat3_within(*m, COORD_SAT as int),
        vec3_within(*v, 2 * (MAT_LIM as int)),
    ensures
        r.x == row3(m.m00 as int, m.m01 as int, m.m02 as int, *v),
        r.y == row3(m.m10 as int, m.m11 as int, m.m12 as int, *v),
        r.z == row3(m.m20 as int, m.m21 as int, m.m22 as int, *v),
        vec3_within(r, 12_000_000_000_000_000),
{
    proof {
        lemma_row3_bound(m.m00 as int, m.m01 as int, m.m02 as int, *v, COORD_SAT as int,
            2 * MAT_LIM as int, 12_000_000_000_000_000);
        lemma_row3_bound(m.m10 as int, m.m11 as int, m.m12 as int, *v, COORD_SAT as int,
            2 * MAT_LIM as int, 12_000_000_000_000_000);
        lemma_row3_bound(m.m20 as int, m.m21 as int, m.m22 as int, *v, COORD_SAT as int,
            2 * MAT_LIM as int, 12_000_000_000_000_000);
    }
    let sx: i128 = m.m00 as i128 * v.x as i128 + m.m01 as i128 * v.y as i128 + m.m02 as i128
        * v.z as i128;
    let sy: i128 = m.m10 as i128 * v.x as i128 + m.m11 as i128 * v.y as i128 + m.m12 as i128
        * v.z as i128;
    let sz: i128 = m.m20 as i128 * v.x as i128 + m.m21 as i128 * v.y as i128 + m.m22 as i128
        * v.z as i128;
    let rx = div_trunc(sx, 1000);
    let ry = div_trunc(sy, 1000);
    let rz = div_trunc(sz, 1000);
    Vec3Fx { x: rx as i64, y: ry as i64, z: rz as i64 }
}

impl Mat3Fx {
    /// The identity matrix in thousandths.
    pub fn identity() -> (m: Mat3Fx)
        ensures
            m == (Mat3Fx {
                m00: 1000,
                m01: 0,
                m02: 0,
                m10: 0,
                m11: 1000,
                m12: 0,
                m20: 0,
                m21: 0,
                m22: 1000,
            }),
    {
        Mat3Fx { m00: 1000, m01: 0, m02: 0, m10: 0, m11: 1000, m12: 0, m20: 0, m21: 0, m22: 1000 }
    }

    /// The transpose.
    pub fn transpose(&self) -> (t: Mat3Fx)
        ensures
            t == (Mat3Fx {
                m00: self.m00,
                m01: self.m10,
                m02: self.m20,
                m10: self.m01,
                m11: self.m11,
                m12: self.m21,
                m20: self.m02,
                m21: self.m12,
                m22: self.m22,
            }),
    {
        Mat3Fx {
            m00: self.m00,
            m01: self.m10,
            m02: self.m20,
            m10: self.m01,
            m11: self.m11,
            m12: self.m21,
            m20: self.m02,
            m21: self.m12,
            m22: self.m22,
        }
    }
}

impl Mat4Fx {
    /// The upper-left 3 by 3 block.
    pub fn upper_left(&self) -> (m: Mat3Fx)
        ensures
            m == (Mat3Fx {
                m00: self.m00,
                m01: self.m01,
                m02: self.m02,
                m10: self.m10,
                m11: self.m11,
                m12: self.m12,
                m20: self.m20,
                m21: self.m21,
                m22: self.m22,
            }),
    {
        Mat3Fx {
            m00: self.m00,
            m01: self.m01,
            m02: self.m02,
            m10: self.m10,
            m11: self.m11,
            m12: self.m12,
            m20: self.m20,
            m21: self.m21,
            m22: self.m22,
        }
    }
}

/// One entry of the inverse: an adjugate cofactor scaled to thousandths and
/// divided by the determinant, then saturated.
pub open spec fn inv_entry(cof: int, det: int) -> int {
    spec_sat(sdiv(cof * 1_000_000, det))
}

/// Computes one entry of the inverse from a cofactor of two entries.
fn inverse_entry(p: i64, q: i64, r: i64, s: i64, det: i128) -> (e: i64)
    requires
        det != 0,
        sabs(p as int) <= MAT_LIM,
        sabs(q as int) <= MAT_LIM,
        sabs(r as int) <= MAT_LIM,
        sabs(s as int) <= MAT_LIM,
        sabs(det as int) <= 48_000_000_000_000_000_000,
    ensures
        e as int == inv_entry(p * q - r * s, det as int),
{
    proof {
        lemma_mul_bound(p as int, q as int, MAT_LIM as int, MAT_LIM as int);
        lemma_mul_bound(r as int, s as int, MAT_LIM as int, MAT_LIM as int);
        lemma_mul_bound((p * q - r * s) as int, 1_000_000, 8_000_000_000_000, 1_000_000);
    }
    let cof: i128 = p as i128 * q as i128 - r as i128 * s as i128;
    let num: i128 = cof * 1_000_000;
    let q0: i128 = div_signed(num, det);
    proof {
        if det > 0 {
            lemma_tdiv_bounds(num as int, det as int);
        } else {
            lemma_tdiv_bounds(num as int, -(det as int));
        }
    }
    let qc: i128 = if q0 > COORD_SAT as i128 {
        COORD_SAT as i128
    } else if q0 < -(COORD_SAT as i128) {
        -(COORD_SAT as i128)
    } else {
        q0
    };
    qc as i64
}

/// The determinant of a 3 by 3 matrix, computed exactly in a wide
/// intermediate.
fn det3(m: &Mat3Fx) -> (d: i128)
    requires
        mat3_within(*m, MAT_LIM as int),
    ensures
        d as int == spec_det3(*m),
        sabs(d as int) <= 48_000_000_000_000_000_000,
{
    proof {
        lemma_mul_bound(m.m11 as int, m.m22 as int, MAT_LIM as int, MAT_LIM as int);
        lemma_mul_bound(m.m12 as int, m.m21 as int, MAT_LIM as int, MAT_LIM as int);
        lemma_mul_bound(m.m10 as int, m.m22 as int, MAT_LIM as int, MAT_LIM as int);
        lemma_mul_bound(m.m12 as int, m.m20 as int, MAT_LIM as int, MAT_LIM as int);
        lemma_mul_bound(m.m10 as int, m.m21 as int, MAT_LIM as int, MAT_LIM as int);
        lemma_mul_bound(m.m11 as int, m.m20 as int, MAT_LIM as int, MAT_LIM as int);
        lemma_mul_bound(m.m00 as int, (m.m11 * m.m22 - m.m12 * m.m21) as int, MAT_LIM as int,
            8_000_000_000_000);
        lemma_mul_bound(m.m01 as int, (m.m10 * m.m22 - m.m12 * m.m20) as int, MAT_LIM as int,
            8_000_000_000_000);
        lemma_mul_bound(m.m02 as int, (m.m10 * m.m21 - m.m11 * m.m20) as int, MAT_LIM as int,
            8_000_000_000_000);
    }
    let c0: i128 = m.m11 as i128 * m.m22 as i128 - m.m12 as i128 * m.m21 as i128;
    let c1: i128 = m.m10 as i128 * m.m22 as i128 - m.m12 as i128 * m.m20 as i128;
    let c2: i128 = m.m10 as i128 * m.m21 as i128 - m.m11 as i128 * m.m20 as i128;
    m.m00 as i128 * c0 - m.m01 as i128 * c1 + m.m02 as i128 * c2
}

/// Inverts a 3 by 3 fixed-point matrix by the adjugate rule, entries
/// saturated to the coordinate window; a zero determinant has no inverse.
pub fn invert3(m: &Mat3Fx) -> (r: Option<Mat3Fx>)
    requires
        mat3_within(*m, MAT_LIM as int),
    ensures
        spec_det3(*m) == 0 <==> r is None,
        r matches Some(inv) ==> {
            let det = spec_det3(*m);
            &&& inv.m00 as int == inv_entry(m.m11 * m.m22 - m.m12 * m.m21, det)
            &&& inv.m01 as int == inv_entry(m.m02 * m.m21 - m.m01 * m.m22, det)
            &&& inv.m02 as int == inv_entry(m.m01 * m.m12 - m.m02 * m.m11, det)
            &&& inv.m10 as int == inv_entry(m.m12 * m.m20 - m.m10 * m.m22, det)
            &&& inv.m11 as int == inv_entry(m.m00 * m.m22 - m.m02 * m.m20, det)
            &&& inv.m12 as int == inv_entry(m.m02 * m.m10 - m.m00 * m.m12, det)
            &&& inv.m20 as int == inv_entry(m.m10 * m.m21 - m.m11 * m.m20, det)
            &&& inv.m21 as int == inv_entry(m.m01 * m.m20 - m.m00 * m.m21, det)
            &&& inv.m22 as int == inv_entry(m.m00 * m.m11 - m.m01 * m.m10, det)
        },
        r matches Some(inv) ==> mat3_within(inv, COORD_SAT as int),
{
    let det = det3(m);
    if det == 0 {
        None
    } else {
        let inv = Mat3Fx {
            m00: inverse_entry(m.m11, m.m22, m.m12, m.m21, det),
            m01: inverse_entry(m.m02, m.m21, m.m01, m.m22, det),
            m02: inverse_entry(m.m01, m.m12, m.m02, m.m11, det),
            m10: inverse_entry(m.m12, m.m20, m.m10, m.m22, det),
            m11: inverse_entry(m.m00, m.m22, m.m02, m.m20, det),
            m12: inverse_entry(m.m02, m.m10, m.m00, m.m12, det),
            m20: inverse_entry(m.m10, m.m21, m.m11, m.m20, det),
            m21: inverse_entry(m.m01, m.m20, m.m00, m.m21, det),
            m22: inverse_entry(m.m00, m.m11, m.m01, m.m10, det),
        };
        Some(inv)
    }
}

} // verus!
