//! The rasterizer: a screen-space triangle becomes the fragments at every
//! pixel whose center passes the barycentric inside test.
//!
//! The edge-function denominator decides orientation; its sign normalizes
//! the three barycentric numerators, so a pixel is inside exactly when all
//! three are nonnegative (boundary pixels included: the inclusion rule is
//! inclusive on every edge, so adjacent triangles may both claim a shared
//! edge).  A zero denominator is a degenerate triangle and yields no
//! fragments.  Every per-vertex attribute is interpolated with the same
//! weights, affinely in screen space.

use vstd::prelude::*;
use crate::fixed::{sabs, clamp01, lemma_mul_bound, div_floor};
use crate::geom::{Vec3Fx, vec3_within, MAT_LIM, COORD_SAT};
use crate::vertex::Vertex;
use crate::fragment::Fragment;
use crate::color::Color;

verus! {

/// Twice the signed area of the triangle through two points and a third:
/// the edge function of rasterization.
pub open spec fn edge2(ax: int, ay: int, bx: int, by: int, px: int, py: int) -> int {
    (bx - ax) * (py - ay) - (by - ay) * (px - ax)
}

/// The screen x of a transformed vertex.
pub open spec fn sx(v: Vertex) -> int {
    v.transformed_position.x as int
}

/// The screen y of a transformed vertex.
pub open spec fn sy(v: Vertex) -> int {
    v.transformed_position.y as int
}

/// The barycentric denominator of a triangle: twice its signed area.
pub open spec fn tri_den(a: Vertex, b: Vertex, c: Vertex) -> int {
    edge2(sx(a), sy(a), sx(b), sy(b), sx(c), sy(c))
}

/// The orientation sign of a denominator.
pub open spec fn sgn(den: int) -> int {
    if den < 0 {
        -1
    } else {
        1
    }
}

/// The milli-space coordinate of a pixel center.
pub open spec fn pix(p: int) -> int {
    1000 * p
}

/// The first normalized barycentric numerator at a pixel (the weight of
/// the first vertex).
pub open spec fn bary0(a: Vertex, b: Vertex, c: Vertex, px: int, py: int) -> int {
    sgn(tri_den(a, b, c)) * edge2(sx(b), sy(b), sx(c), sy(c), pix(px), pix(py))
}

/// The second normalized barycentric numerator.
pub open spec fn bary1(a: Vertex, b: Vertex, c: Vertex, px: int, py: int) -> int {
    sgn(tri_den(a, b, c)) * edge2(sx(c), sy(c), sx(a), sy(a), pix(px), pix(py))
}

/// The third normalized barycentric numerator.
pub open spec fn bary2(a: Vertex, b: Vertex, c: Vertex, px: int, py: int) -> int {
    sgn(tri_den(a, b, c)) * edge2(sx(a), sy(a), sx(b), sy(b), pix(px), pix(py))
}

/// The normalized (positive) denominator.
pub open spec fn norm_den(a: Vertex, b: Vertex, c: Vertex) -> int {
    sgn(tri_den(a, b, c)) * tri_den(a, b, c)
}

/// The inside test: the triangle is not degenerate and every normalized
/// barycentric numerator at the pixel center is nonnegative.
pub open spec fn pixel_inside(a: Vertex, b: Vertex, c: Vertex, px: int, py: int) -> bool {
    tri_den(a, b, c) != 0 && bary0(a, b, c, px, py) >= 0 && bary1(a, b, c, px, py) >= 0 && bary2(
        a,
        b,
        c,
        px,
        py,
    ) >= 0
}

/// Affine interpolation of one attribute by normalized barycentric
/// weights: the weighted sum divided (flooring) by the denominator.
pub open spec fn interp(w0: int, w1: int, w2: int, nden: int, t0: int, t1: int, t2: int) -> int {
    (w0 * t0 + w1 * t1 + w2 * t2) / nden
}

/// The least of three values.
pub open spec fn min3(a: int, b: int, c: int) -> int {
    if a <= b && a <= c {
        a
    } else if b <= c {
        b
    } else {
        c
    }
}

/// The greatest of three values.
pub open spec fn max3(a: int, b: int, c: int) -> int {
    if a >= b && a >= c {
        a
    } else if b >= c {
        b
    } else {
        c
    }
}

/// The integer square root: the greatest integer whose square does not
/// exceed the argument.
pub open spec fn spec_isqrt(n: int) -> int {
    choose|r: int| 0 <= r && #[trigger] (r * r) <= n < (r + 1) * (r + 1)
}

/// The lighting factor of a vertex: the cosine between its transformed
/// normal and the light direction, scaled to thousandths and clamped to
/// [0, 1]; a zero-length normal or light gives zero.
pub open spec fn spec_intensity(n: Vec3Fx, l: Vec3Fx) -> int {
    let dot = n.x * l.x + n.y * l.y + n.z * l.z;
    let nn = spec_isqrt(n.x * n.x + n.y * n.y + n.z * n.z);
    let nl = spec_isqrt(l.x * l.x + l.y * l.y + l.z * l.z);
    if nn == 0 || nl == 0 {
        0
    } else {
        clamp01(dot * 1000 / (nn * nl))
    }
}

/// The fragment the rasterizer emits at an inside pixel: every attribute
/// interpolated with the pixel's barycentric weights.
pub open spec fn spec_fragment(
    a: Vertex,
    b: Vertex,
    c: Vertex,
    light: Vec3Fx,
    px: int,
    py: int,
) -> Fragment {
    let w0 = bary0(a, b, c, px, py);
    let w1 = bary1(a, b, c, px, py);
    let w2 = bary2(a, b, c, px, py);
    let nden = norm_den(a, b, c);
    let i0 = spec_intensity(a.transformed_normal, light);
    let i1 = spec_intensity(b.transformed_normal, light);
    let i2 = spec_intensity(c.transformed_normal, light);
    Fragment {
        x: px as usize,
        y: py as usize,
        depth: interp(w0, w1, w2, nden, a.transformed_position.z as int,
            b.transformed_position.z as int, c.transformed_position.z as int) as i64,
        color: Color {
            r: interp(w0, w1, w2, nden, a.color.r as int, b.color.r as int, c.color.r as int) as u8,
            g: interp(w0, w1, w2, nden, a.color.g as int, b.color.g as int, c.color.g as int) as u8,
            b: interp(w0, w1, w2, nden, a.color.b as int, b.color.b as int, c.color.b as int) as u8,
        },
        normal: Vec3Fx {
            x: interp(w0, w1, w2, nden, a.transformed_normal.x as int,
                b.transformed_normal.x as int, c.transformed_normal.x as int) as i64,
            y: interp(w0, w1, w2, nden, a.transformed_normal.y as int,
                b.transformed_normal.y as int, c.transformed_normal.y as int) as i64,
            z: interp(w0, w1, w2, nden, a.transformed_normal.z as int,
                b.transformed_normal.z as int, c.transformed_normal.z as int) as i64,
        },
        intensity: interp(w0, w1, w2, nden, i0, i1, i2) as i64,
        vertex_position: Vec3Fx {
            x: interp(w0, w1, w2, nden, a.position.x as int, b.position.x as int,
                c.position.x as int) as i64,
            y: interp(w0, w1, w2, nden, a.position.y as int, b.position.y as int,
                c.position.y as int) as i64,
            z: interp(w0, w1, w2, nden, a.position.z as int, b.position.z as int,
                c.position.z as int) as i64,
        },
    }
}

/// The fragments of the first n grid cells in row-major order: cell n - 1
/// sits at column (n-1) mod width and row (n-1) div width, and contributes
/// its fragment exactly when its center is inside the triangle.
pub open spec fn frags_upto(
    a: Vertex,
    b: Vertex,
    c: Vertex,
    light: Vec3Fx,
    width: int,
    n: int,
) -> Seq<Fragment>
    decreases n,
{
    if n <= 0 {
        Seq::empty()
    } else {
        let prev = frags_upto(a, b, c, light, width, n - 1);
        let px = (n - 1) % width;
        let py = (n - 1) / width;
        if pixel_inside(a, b, c, px, py) {
            prev.push(spec_fragment(a, b, c, light, px, py))
        } else {
            prev
        }
    }
}

/// The exact fragment sequence of one rasterized triangle: the fragments
/// of every inside pixel of the target, in row-major order; none for a
/// degenerate triangle.
pub open spec fn spec_triangle_frags(
    a: Vertex,
    b: Vertex,
    c: Vertex,
    light: Vec3Fx,
    width: int,
    height: int,
) -> Seq<Fragment> {
    if tri_den(a, b, c) == 0 {
        Seq::empty()
    } else {
        frags_upto(a, b, c, light, width, width * height)
    }
}

/// The three raw edge weights at any point sum to the triangle's
/// denominator.
pub proof fn lemma_bary_sum(ax: int, ay: int, bx: int, by: int, cx: int, cy: int, px: int, py: int)
    ensures
        edge2(bx, by, cx, cy, px, py) + edge2(cx, cy, ax, ay, px, py) + edge2(
            ax,
            ay,
            bx,
            by,
            px,
            py,
        ) == edge2(ax, ay, bx, by, cx, cy),
{
    assert((cx - bx) * (py - by) == cx * py - by * cx - bx * py + bx * by) by (nonlinear_arith);
    assert((cy - by) * (px - bx) == cy * px - bx * cy - by * px + bx * by) by (nonlinear_arith);
    assert((ax - cx) * (py - cy) == ax * py - ax * cy - cx * py + cx * cy) by (nonlinear_arith);
    assert((ay - cy) * (px - cx) == ay * px - ay * cx - cy * px + cx * cy) by (nonlinear_arith);
    assert((bx - ax) * (py - ay) == bx * py - ay * bx - ax * py + ax * ay) by (nonlinear_arith);
    assert((by - ay) * (px - ax) == by * px - ax * by - ay * px + ax * ay) by (nonlinear_arith);
    assert((bx - ax) * (cy - ay) == bx * cy - ay * bx - ax * cy + ax * ay) by (nonlinear_arith);
    assert((by - ay) * (cx - ax) == by * cx - ax * by - ay * cx + ax * ay) by (nonlinear_arith);
}

/// A convex combination with floor division stays between the least and
/// greatest of its inputs.
pub proof fn lemma_interp_range(w0: int, w1: int, w2: int, nden: int, t0: int, t1: int, t2: int)
    requires
        nden > 0,
        w0 >= 0,
        w1 >= 0,
        w2 >= 0,
        w0 + w1 + w2 == nden,
    ensures
        min3(t0, t1, t2) <= interp(w0, w1, w2, nden, t0, t1, t2) <= max3(t0, t1, t2),
{
    let lo = min3(t0, t1, t2);
    let hi = max3(t0, t1, t2);
    let s = w0 * t0 + w1 * t1 + w2 * t2;
    assert(w0 * lo <= w0 * t0 <= w0 * hi) by (nonlinear_arith)
        requires
            w0 >= 0,
            lo <= t0 <= hi,
    ;
    assert(w1 * lo <= w1 * t1 <= w1 * hi) by (nonlinear_arith)
        requires
            w1 >= 0,
            lo <= t1 <= hi,
    ;
    assert(w2 * lo <= w2 * t2 <= w2 * hi) by (nonlinear_arith)
        requires
            w2 >= 0,
            lo <= t2 <= hi,
    ;
    assert((w0 + w1 + w2) * lo == w0 * lo + w1 * lo + w2 * lo) by (nonlinear_arith);
    assert((w0 + w1 + w2) * hi == w0 * hi + w1 * hi + w2 * hi) by (nonlinear_arith);
    assert(lo <= s / nden) by (nonlinear_arith)
        requires
            nden > 0,
            nden * lo <= s,
    ;
    assert(s / nden <= hi) by (nonlinear_arith)
        requires
            nden > 0,
            s <= nden * hi,
    ;
}

/// No two distinct nonnegative integers can both be the floor square root
/// of the same number.
proof fn lemma_isqrt_unique(n: int, r1: int, r2: int)
    requires
        0 <= r1,
        0 <= r2,
        r1 * r1 <= n < (r1 + 1) * (r1 + 1),
        r2 * r2 <= n < (r2 + 1) * (r2 + 1),
    ensures
        r1 == r2,
{
    assert(r1 == r2) by (nonlinear_arith)
        requires
            0 <= r1,
            0 <= r2,
            r1 * r1 <= n < (r1 + 1) * (r1 + 1),
            r2 * r2 <= n < (r2 + 1) * (r2 + 1),
    ;
}

/// The integer square root by bisection.
fn isqrt128(n: u128) -> (r: u128)
    ensures
        r * r <= n < (r + 1) * (r + 1),
        r as int == spec_isqrt(n as int),
{
    let mut lo: u128 = 0;
    let mut hi: u128 = 0xFFFF_FFFF_FFFF_FFFF;
    proof {
        assert((hi + 1) * (hi + 1) > n as int) by (nonlinear_arith)
            requires
                hi == 0xFFFF_FFFF_FFFF_FFFFu128,
                n <= u128::MAX,
        ;
    }
    while lo < hi
        invariant
            lo <= hi <= 0xFFFF_FFFF_FFFF_FFFFu128,
            lo * lo <= n,
            (hi + 1) * (hi + 1) > n as int,
        decreases hi - lo,
    {
        let mid: u128 = lo + (hi - lo + 1) / 2;
        proof {
            assert(mid * mid <= u128::MAX) by (nonlinear_arith)
                requires
                    mid <= 0xFFFF_FFFF_FFFF_FFFFu128,
            ;
        }
        if mid * mid <= n {
            lo = mid;
        } else {
            hi = mid - 1;
        }
    }
    proof {
        let w = lo as int;
        assert(0 <= w && w * w <= n as int && (n as int) < (w + 1) * (w + 1));
        let r2 = spec_isqrt(n as int);
        assert(0 <= r2 && r2 * r2 <= n as int && (n as int) < (r2 + 1) * (r2 + 1));
        lemma_isqrt_unique(n as int, w, r2);
    }
    lo
}

/// The lighting factor of a vertex from its transformed normal and the
/// light direction: the fixed-point cosine of the angle between them,
/// clamped to [0, 1].
pub fn vertex_intensity(n: &Vec3Fx, l: &Vec3Fx) -> (r: i64)
    requires
        vec3_within(*n, COORD_SAT as int),
        vec3_within(*l, MAT_LIM as int),
    ensures
        r == spec_intensity(*n, *l),
        0 <= r <= 1000,
{
    proof {
        lemma_mul_bound(n.x as int, l.x as int, COORD_SAT as int, MAT_LIM as int);
        lemma_mul_bound(n.y as int, l.y as int, COORD_SAT as int, MAT_LIM as int);
        lemma_mul_bound(n.z as int, l.z as int, COORD_SAT as int, MAT_LIM as int);
        lemma_mul_bound(n.x as int, n.x as int, COORD_SAT as int, COORD_SAT as int);
        lemma_mul_bound(n.y as int, n.y as int, COORD_SAT as int, COORD_SAT as int);
        lemma_mul_bound(n.z as int, n.z as int, COORD_SAT as int, COORD_SAT as int);
        lemma_mul_bound(l.x as int, l.x as int, MAT_LIM as int, MAT_LIM as int);
        lemma_mul_bound(l.y as int, l.y as int, MAT_LIM as int, MAT_LIM as int);
        lemma_mul_bound(l.z as int, l.z as int, MAT_LIM as int, MAT_LIM as int);
        assert(n.x as int * n.x as int >= 0) by (nonlinear_arith);
        assert(n.y as int * n.y as int >= 0) by (nonlinear_arith);
        assert(n.z as int * n.z as int >= 0) by (nonlinear_arith);
        assert(l.x as int * l.x as int >= 0) by (nonlinear_arith);
        assert(l.y as int * l.y as int >= 0) by (nonlinear_arith);
        assert(l.z as int * l.z as int >= 0) by (nonlinear_arith);
    }
    let dot: i128 = n.x as i128 * l.x as i128 + n.y as i128 * l.y as i128 + n.z as i128
        * l.z as i128;
    let nn2: i128 = n.x as i128 * n.x as i128 + n.y as i128 * n.y as i128 + n.z as i128
        * n.z as i128;
    let nl2: i128 = l.x as i128 * l.x as i128 + l.y as i128 * l.y as i128 + l.z as i128
        * l.z as i128;
    let nn: u128 = isqrt128(nn2 as u128);
    let nl: u128 = isqrt128(nl2 as u128);
    if nn == 0 || nl == 0 {
        0
    } else {
        proof {
            assert(nn * nl >= 1) by (nonlinear_arith)
                requires
                    nn >= 1,
                    nl >= 1,
            ;
            assert(nn as int <= 2_000_000_000_000 && nl as int <= 2_000_000_000_000)
                by (nonlinear_arith)
                requires
                    nn * nn <= nn2 as int,
                    nl * nl <= nl2 as int,
                    nn2 as int <= 3_000_000_000_000_000_000_000_000,
                    nl2 as int <= 3_000_000_000_000_000_000_000_000,
                    nn >= 0,
                    nl >= 0,
            ;
            lemma_mul_bound(nn as int, nl as int, 2_000_000_000_000, 2_000_000_000_000);
        }
        let den: i128 = (nn as i128) * (nl as i128);
        let q: i128 = div_floor(dot * 1000, den);
        proof {
            crate::fixed::lemma_tdiv_bounds(dot as int * 1000, den as int);
            assert(spec_intensity(*n, *l) == clamp01(dot as int * 1000 / (den as int)));
        }
        if q < 0 {
            0
        } else if q > 1000 {
            1000
        } else {
            q as i64
        }
    }
}

/// The ranges the rasterizer accepts: screen coordinates and normals
/// within the saturation window, model positions within the model range.
pub open spec fn raster_in_range(v: Vertex) -> bool {
    vec3_within(v.transformed_position, COORD_SAT as int) && vec3_within(
        v.transformed_normal,
        COORD_SAT as int,
    ) && vec3_within(v.position, MAT_LIM as int)
}

/// A fragment the rasterizer may emit: on the grid, at an inside pixel,
/// with exactly the interpolated attributes.
pub open spec fn frag_ok(
    a: Vertex,
    b: Vertex,
    c: Vertex,
    light: Vec3Fx,
    width: int,
    height: int,
    f: Fragment,
) -> bool {
    0 <= f.x < width && 0 <= f.y < height && pixel_inside(a, b, c, f.x as int, f.y as int) && f
        == spec_fragment(a, b, c, light, f.x as int, f.y as int)
}

/// One interpolated attribute: the weighted sum of the three vertex values
/// scaled back by the positive denominator, flooring.
fn interp_attr(w0: i128, w1: i128, w2: i128, nden: i128, t0: i64, t1: i64, t2: i64) -> (r: i64)
    requires
        nden > 0,
        w0 >= 0,
        w1 >= 0,
        w2 >= 0,
        w0 + w1 + w2 == nden,
        nden <= 10_000_000_000_000_000_000_000_000,
        sabs(t0 as int) <= COORD_SAT,
        sabs(t1 as int) <= COORD_SAT,
        sabs(t2 as int) <= COORD_SAT,
    ensures
        r as int == interp(w0 as int, w1 as int, w2 as int, nden as int, t0 as int, t1 as int,
            t2 as int),
        min3(t0 as int, t1 as int, t2 as int) <= r as int <= max3(t0 as int, t1 as int, t2 as int),
{
    proof {
        lemma_mul_bound(w0 as int, t0 as int, 10_000_000_000_000_000_000_000_000,
            COORD_SAT as int);
        lemma_mul_bound(w1 as int, t1 as int, 10_000_000_000_000_000_000_000_000,
            COORD_SAT as int);
        lemma_mul_bound(w2 as int, t2 as int, 10_000_000_000_000_000_000_000_000,
            COORD_SAT as int);
        lemma_interp_range(w0 as int, w1 as int, w2 as int, nden as int, t0 as int, t1 as int,
            t2 as int);
    }
    let sum: i128 = w0 * (t0 as i128) + w1 * (t1 as i128) + w2 * (t2 as i128);
    let q: i128 = div_floor(sum, nden);
    q as i64
}

/// Builds the fragment at one inside pixel from its barycentric weights.
fn emit_fragment(
    a: &Vertex,
    b: &Vertex,
    c: &Vertex,
    light: &Vec3Fx,
    px: usize,
    py: usize,
    w0: i128,
    w1: i128,
    w2: i128,
    nden: i128,
    i0: i64,
    i1: i64,
    i2: i64,
) -> (f: Fragment)
    requires
        raster_in_range(*a),
        raster_in_range(*b),
        raster_in_range(*c),
        px <= 4000,
        py <= 4000,
        w0 as int == bary0(*a, *b, *c, px as int, py as int),
        w1 as int == bary1(*a, *b, *c, px as int, py as int),
        w2 as int == bary2(*a, *b, *c, px as int, py as int),
        nden as int == norm_den(*a, *b, *c),
        w0 >= 0,
        w1 >= 0,
        w2 >= 0,
        nden > 0,
        w0 + w1 + w2 == nden,
        nden <= 10_000_000_000_000_000_000_000_000,
        i0 == spec_intensity(a.transformed_normal, *light),
        i1 == spec_intensity(b.transformed_normal, *light),
        i2 == spec_intensity(c.transformed_normal, *light),
        0 <= i0 <= 1000,
        0 <= i1 <= 1000,
        0 <= i2 <= 1000,
    ensures
        f == spec_fragment(*a, *b, *c, *light, px as int, py as int),
        f.x == px,
        f.y == py,
{
    let depth = interp_attr(w0, w1, w2, nden, a.transformed_position.z, b.transformed_position.z,
        c.transformed_position.z);
    let cr = interp_attr(w0, w1, w2, nden, a.color.r as i64, b.color.r as i64, c.color.r as i64);
    let cg = interp_attr(w0, w1, w2, nden, a.color.g as i64, b.color.g as i64, c.color.g as i64);
    let cb = interp_attr(w0, w1, w2, nden, a.color.b as i64, b.color.b as i64, c.color.b as i64);
    let nx = interp_attr(w0, w1, w2, nden, a.transformed_normal.x, b.transformed_normal.x,
        c.transformed_normal.x);
    let ny = interp_attr(w0, w1, w2, nden, a.transformed_normal.y, b.transformed_normal.y,
        c.transformed_normal.y);
    let nz = interp_attr(w0, w1, w2, nden, a.transformed_normal.z, b.transformed_normal.z,
        c.transformed_normal.z);
    let fi = interp_attr(w0, w1, w2, nden, i0, i1, i2);
    let vx = interp_attr(w0, w1, w2, nden, a.position.x, b.position.x, c.position.x);
    let vy = interp_attr(w0, w1, w2, nden, a.position.y, b.position.y, c.position.y);
    let vz = interp_attr(w0, w1, w2, nden, a.position.z, b.position.z, c.position.z);
    let f = Fragment {
        x: px,
        y: py,
        depth,
        color: Color { r: cr as u8, g: cg as u8, b: cb as u8 },
        normal: Vec3Fx { x: nx, y: ny, z: nz },
        intensity: fi,
        vertex_position: Vec3Fx { x: vx, y: vy, z: vz },
    };
    proof {
        let sf = spec_fragment(*a, *b, *c, *light, px as int, py as int);
        assert(f.depth == sf.depth);
        assert(f.color == sf.color);
        assert(f.normal == sf.normal);
        assert(f.intensity == sf.intensity);
        assert(f.vertex_position == sf.vertex_position);
        assert(f == sf);
    }
    f
}

/// Rasterizes one triangle: emits, in row-major order, one fragment for
/// every pixel of the target whose center lies inside the triangle, with
/// all attributes interpolated barycentrically.  The scan covers the whole
/// target; a bounding-box scan would visit fewer candidates but emits the
/// same fragments, since the inside test rejects every pixel beyond the
/// triangle.  A degenerate triangle (zero denominator: coincident or
/// collinear vertices) produces no fragments.
pub fn triangle(
    a: &Vertex,
    b: &Vertex,
    c: &Vertex,
    width: usize,
    height: usize,
    light: &Vec3Fx,
) -> (frags: Vec<Fragment>)
    requires
        raster_in_range(*a),
        raster_in_range(*b),
        raster_in_range(*c),
        vec3_within(*light, MAT_LIM as int),
        width <= 4000,
        height <= 4000,
    ensures
        frags@ == spec_triangle_frags(*a, *b, *c, *light, width as int, height as int),
        tri_den(*a, *b, *c) == 0 ==> frags@.len() == 0,
        forall|i: int|
            0 <= i < frags@.len() ==> frag_ok(*a, *b, *c, *light, width as int, height as int,
                #[trigger] frags@[i]),
        forall|px: int, py: int|
            0 <= px < width && 0 <= py < height && pixel_inside(*a, *b, *c, px, py) ==> exists|
                i: int,
            |
                0 <= i < frags@.len() && #[trigger] frags@[i] == spec_fragment(*a, *b, *c, *light,
                px, py),
        forall|i: int, j: int|
            0 <= i < j < frags@.len() ==> ((frags@[i].y as int) < (frags@[j].y as int) || (
            frags@[i].y == frags@[j].y && (frags@[i].x as int) < (frags@[j].x as int))),
{
    let ax = a.transformed_position.x;
    let ay = a.transformed_position.y;
    let bx = b.transformed_position.x;
    let by = b.transformed_position.y;
    let cx = c.transformed_position.x;
    let cy = c.transformed_position.y;
    proof {
        lemma_mul_bound(bx as int - ax as int, cy as int - ay as int, 2_000_000_000_001,
            2_000_000_000_001);
        lemma_mul_bound(by as int - ay as int, cx as int - ax as int, 2_000_000_000_001,
            2_000_000_000_001);
    }
    let den: i128 = (bx as i128 - ax as i128) * (cy as i128 - ay as i128) - (by as i128
        - ay as i128) * (cx as i128 - ax as i128);
    let mut frags: Vec<Fragment> = Vec::new();
    if den == 0 {
        return frags;
    }
    let s: i128 = if den < 0 {
        -1
    } else {
        1
    };
    let nden: i128 = s * den;
    proof {
        assert(nden == norm_den(*a, *b, *c));
        assert(nden > 0);
        assert(nden <= 10_000_000_000_000_000_000_000_000);
    }
    let i0 = vertex_intensity(&a.transformed_normal, light);
    let i1 = vertex_intensity(&b.transformed_normal, light);
    let i2 = vertex_intensity(&c.transformed_normal, light);
    let mut py: usize = 0;
    while py < height
        invariant
            py <= height,
            width <= 4000,
            height <= 4000,
            raster_in_range(*a),
            raster_in_range(*b),
            raster_in_range(*c),
            vec3_within(*light, MAT_LIM as int),
            ax == a.transformed_position.x,
            ay == a.transformed_position.y,
            bx == b.transformed_position.x,
            by == b.transformed_position.y,
            cx == c.transformed_position.x,
            cy == c.transformed_position.y,
            den as int == tri_den(*a, *b, *c),
            den != 0,
            s as int == sgn(tri_den(*a, *b, *c)),
            nden as int == norm_den(*a, *b, *c),
            nden > 0,
            nden <= 10_000_000_000_000_000_000_000_000,
            i0 == spec_intensity(a.transformed_normal, *light),
            i1 == spec_intensity(b.transformed_normal, *light),
            i2 == spec_intensity(c.transformed_normal, *light),
            0 <= i0 <= 1000,
            0 <= i1 <= 1000,
            0 <= i2 <= 1000,
            forall|i: int|
                0 <= i < frags@.len() ==> frag_ok(*a, *b, *c, *light, width as int, height as int,
                    #[trigger] frags@[i]),
            forall|i: int| 0 <= i < frags@.len() ==> (#[trigger] frags@[i].y as int) < py,
            frags@ == frags_upto(*a, *b, *c, *light, width as int, py as int * width as int),
            forall|gx: int, gy: int|
                0 <= gx < width && 0 <= gy < py && pixel_inside(*a, *b, *c, gx, gy) ==> exists|
                    i: int,
                |
                    0 <= i < frags@.len() && #[trigger] frags@[i] == spec_fragment(*a, *b, *c,
                    *light, gx, gy),
            forall|i: int, j: int|
                0 <= i < j < frags@.len() ==> ((frags@[i].y as int) < (frags@[j].y as int) || (
                frags@[i].y == frags@[j].y && (frags@[i].x as int) < (frags@[j].x as int))),
        decreases height - py,
    {
        let mut px: usize = 0;
        while px < width
            invariant
                px <= width,
                py < height,
                width <= 4000,
                height <= 4000,
                raster_in_range(*a),
                raster_in_range(*b),
                raster_in_range(*c),
                vec3_within(*light, MAT_LIM as int),
                ax == a.transformed_position.x,
                ay == a.transformed_position.y,
                bx == b.transformed_position.x,
                by == b.transformed_position.y,
                cx == c.transformed_position.x,
                cy == c.transformed_position.y,
                den as int == tri_den(*a, *b, *c),
                den != 0,
                s as int == sgn(tri_den(*a, *b, *c)),
                nden as int == norm_den(*a, *b, *c),
                nden > 0,
                nden <= 10_000_000_000_000_000_000_000_000,
                i0 == spec_intensity(a.transformed_normal, *light),
                i1 == spec_intensity(b.transformed_normal, *light),
                i2 == spec_intensity(c.transformed_normal, *light),
                0 <= i0 <= 1000,
                0 <= i1 <= 1000,
                0 <= i2 <= 1000,
                forall|i: int|
                    0 <= i < frags@.len() ==> frag_ok(*a, *b, *c, *light, width as int,
                        height as int, #[trigger] frags@[i]),
                forall|i: int|
                    0 <= i < frags@.len() ==> ((#[trigger] frags@[i].y as int) < py || (
                    frags@[i].y as int == py && (frags@[i].x as int) < px)),
                frags@ == frags_upto(*a, *b, *c, *light, width as int, py as int * width as int
                    + px as int),
                forall|gx: int, gy: int|
                    0 <= gx < width && ((0 <= gy < py) || (gy == py && 0 <= gx < px))
                        && pixel_inside(*a, *b, *c, gx, gy) ==> exists|i: int|
                        0 <= i < frags@.len() && #[trigger] frags@[i] == spec_fragment(*a, *b, *c,
                        *light, gx, gy),
                forall|i: int, j: int|
                    0 <= i < j < frags@.len() ==> ((frags@[i].y as int) < (frags@[j].y as int) || (
                    frags@[i].y == frags@[j].y && (frags@[i].x as int) < (frags@[j].x as int))),
            decreases width - px,
        {
            let pxm: i128 = (px as i128) * 1000;
            let pym: i128 = (py as i128) * 1000;
            proof {
                lemma_mul_bound(cx as int - bx as int, pym as int - by as int, 2_000_000_000_001,
                    1_000_004_000_000);
                lemma_mul_bound(cy as int - by as int, pxm as int - bx as int, 2_000_000_000_001,
                    1_000_004_000_000);
                lemma_mul_bound(ax as int - cx as int, pym as int - cy as int, 2_000_000_000_001,
                    1_000_004_000_000);
                lemma_mul_bound(ay as int - cy as int, pxm as int - cx as int, 2_000_000_000_001,
                    1_000_004_000_000);
                lemma_mul_bound(bx as int - ax as int, pym as int - ay as int, 2_000_000_000_001,
                    1_000_004_000_000);
                lemma_mul_bound(by as int - ay as int, pxm as int - ax as int, 2_000_000_000_001,
                    1_000_004_000_000);
            }
            let w0r: i128 = (cx as i128 - bx as i128) * (pym - by as i128) - (cy as i128
                - by as i128) * (pxm - bx as i128);
            let w1r: i128 = (ax as i128 - cx as i128) * (pym - cy as i128) - (ay as i128
                - cy as i128) * (pxm - cx as i128);
            let w2r: i128 = (bx as i128 - ax as i128) * (pym - ay as i128) - (by as i128
                - ay as i128) * (pxm - ax as i128);
            proof {
                lemma_bary_sum(ax as int, ay as int, bx as int, by as int, cx as int, cy as int,
                    pxm as int, pym as int);
                assert(w0r as int == edge2(bx as int, by as int, cx as int, cy as int,
                    pix(px as int), pix(py as int)));
                assert(w1r as int == edge2(cx as int, cy as int, ax as int, ay as int,
                    pix(px as int), pix(py as int)));
                assert(w2r as int == edge2(ax as int, ay as int, bx as int, by as int,
                    pix(px as int), pix(py as int)));
            }
            let w0: i128 = s * w0r;
            let w1: i128 = s * w1r;
            let w2: i128 = s * w2r;
            proof {
                if s == 1 {
                    assert(w0 as int + w1 as int + w2 as int == nden as int);
                } else {
                    assert(w0 as int + w1 as int + w2 as int == nden as int);
                }
                assert(w0 as int == bary0(*a, *b, *c, px as int, py as int));
                assert(w1 as int == bary1(*a, *b, *c, px as int, py as int));
                assert(w2 as int == bary2(*a, *b, *c, px as int, py as int));
                vstd::arithmetic::div_mod::lemma_fundamental_div_mod_converse(
                    py as int * (width as int) + px as int,
                    width as int,
                    py as int,
                    px as int,
                );
            }
            if w0 >= 0 && w1 >= 0 && w2 >= 0 {
                let f = emit_fragment(a, b, c, light, px, py, w0, w1, w2, nden, i0, i1, i2);
                let ghost before = frags@;
                frags.push(f);
                proof {
                    assert(pixel_inside(*a, *b, *c, px as int, py as int));
                    assert(frags@ == before.push(f));
                    assert(frag_ok(*a, *b, *c, *light, width as int, height as int, f));
                    assert forall|gx: int, gy: int|
                        0 <= gx < width && ((0 <= gy < py) || (gy == py && 0 <= gx < px + 1))
                            && pixel_inside(*a, *b, *c, gx, gy) implies exists|i: int|
                        0 <= i < frags@.len() && #[trigger] frags@[i] == spec_fragment(*a, *b, *c,
                        *light, gx, gy) by {
                        if gy == py && gx == px {
                            assert(frags@[before.len() as int] == spec_fragment(*a, *b, *c, *light,
                                gx, gy));
                        } else {
                            let i = choose|i: int|
                                0 <= i < before.len() && #[trigger] before[i] == spec_fragment(
                                    *a,
                                    *b,
                                    *c,
                                    *light,
                                    gx,
                                    gy,
                                );
                            assert(frags@[i] == spec_fragment(*a, *b, *c, *light, gx, gy));
                        }
                    }
                    assert(frags@ == frags_upto(*a, *b, *c, *light, width as int, py as int
                        * (width as int) + px as int + 1));
                }
            } else {
                proof {
                    assert(!pixel_inside(*a, *b, *c, px as int, py as int));
                    assert(frags@ == frags_upto(*a, *b, *c, *light, width as int, py as int
                        * (width as int) + px as int + 1));
                    assert forall|gx: int, gy: int|
                        0 <= gx < width && ((0 <= gy < py) || (gy == py && 0 <= gx < px + 1))
                            && pixel_inside(*a, *b, *c, gx, gy) implies exists|i: int|
                        0 <= i < frags@.len() && #[trigger] frags@[i] == spec_fragment(*a, *b, *c,
                        *light, gx, gy) by {
                        assert(!(gy == py && gx == px));
                    }
                }
            }
            px = px + 1;
        }
        proof {
            assert(py as int * (width as int) + width as int == (py as int + 1) * (width as int))
                by (nonlinear_arith);
        }
        py = py + 1;
    }
    proof {
        assert((height as int) * (width as int) == (width as int) * (height as int))
            by (nonlinear_arith);
    }
    frags
}

} // verus!
