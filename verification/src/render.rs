//! The per-object pipeline stages: vertex transform, primitive assembly
//! with rasterization, and the shaded depth-tested commit.
//!
//! Each frame runs the stages in order for every object.  Noise sampling
//! sits between rasterization and the commit: the caller asks
//! `noise_request` for each fragment's sample points, samples them, and
//! hands the replies to `shade_and_commit`, which shades every fragment
//! and submits it to the frame buffer's depth test.

use vstd::prelude::*;
use crate::geom::{Vec3Fx, vec3_within, MAT_LIM};
use crate::vertex::{Vertex, vertex_in_range};
use crate::fragment::Fragment;
use crate::transform::{Uniforms, uniforms_within, vertex_shader, spec_transform_position,
    spec_transform_normal};
use crate::raster::{triangle, raster_in_range, frag_ok, pixel_inside, spec_fragment,
    spec_triangle_frags};
use crate::framebuffer::Framebuffer;
use crate::shaders::{ShaderKind, NoiseReply, fragment_shader, spec_fragment_shader, frag_in_range,
    reply_in_range};
use crate::color::Color;

verus! {

/// A vertex after the transform stage: the raw fields unchanged, the
/// transformed fields filled in.
pub open spec fn spec_transformed(v: Vertex, u: Uniforms) -> Vertex {
    Vertex {
        position: v.position,
        normal: v.normal,
        tex_coords: v.tex_coords,
        color: v.color,
        transformed_position: spec_transform_position(v, u),
        transformed_normal: spec_transform_normal(v, u),
    }
}

/// The first vertex of the k-th assembled triangle.
pub open spec fn tri_v0(vs: Seq<Vertex>, k: int) -> Vertex {
    vs[3 * k]
}

/// The second vertex of the k-th assembled triangle.
pub open spec fn tri_v1(vs: Seq<Vertex>, k: int) -> Vertex {
    vs[3 * k + 1]
}

/// The third vertex of the k-th assembled triangle.
pub open spec fn tri_v2(vs: Seq<Vertex>, k: int) -> Vertex {
    vs[3 * k + 2]
}

/// Whether the k-th assembled triangle exists: its three vertices all lie
/// within the list (trailing vertices that do not complete a triple are
/// dropped).
pub open spec fn tri_exists(vs: Seq<Vertex>, k: int) -> bool {
    0 <= k && 3 * k + 2 < vs.len()
}

/// The inside test of the k-th assembled triangle at a pixel.
pub open spec fn tri_inside(vs: Seq<Vertex>, k: int, px: int, py: int) -> bool {
    pixel_inside(tri_v0(vs, k), tri_v1(vs, k), tri_v2(vs, k), px, py)
}

/// The fragment of the k-th assembled triangle at a pixel.
pub open spec fn tri_fragment(vs: Seq<Vertex>, k: int, light: Vec3Fx, px: int, py: int) -> Fragment {
    spec_fragment(tri_v0(vs, k), tri_v1(vs, k), tri_v2(vs, k), light, px, py)
}

/// Whether a fragment is a valid emission of some assembled triangle.
pub open spec fn from_some_triangle(
    vs: Seq<Vertex>,
    light: Vec3Fx,
    width: int,
    height: int,
    f: Fragment,
) -> bool {
    exists|k: int| #[trigger] tri_frag_ok(vs, k, light, width, height, f)
}

/// Whether a fragment is a valid emission of the k-th assembled triangle.
pub open spec fn tri_frag_ok(
    vs: Seq<Vertex>,
    k: int,
    light: Vec3Fx,
    width: int,
    height: int,
    f: Fragment,
) -> bool {
    tri_exists(vs, k) && frag_ok(tri_v0(vs, k), tri_v1(vs, k), tri_v2(vs, k), light, width, height,
        f)
}

/// The vertex transform stage over a whole vertex list: every vertex is
/// pushed through the model, view, projection and viewport matrices and
/// the normal matrix, in order, raw fields kept.
pub fn transform_vertices(uniforms: &Uniforms, vertex_array: &Vec<Vertex>) -> (out: Vec<Vertex>)
    requires
        uniforms_within(*uniforms),
        forall|i: int|
            0 <= i < vertex_array@.len() ==> vertex_in_range(#[trigger] vertex_array@[i]),
    ensures
        out@.len() == vertex_array@.len(),
        forall|i: int|
            0 <= i < out@.len() ==> #[trigger] out@[i] == spec_transformed(
                vertex_array@[i],
                *uniforms,
            ),
        forall|i: int| 0 <= i < out@.len() ==> raster_in_range(#[trigger] out@[i]),
{
    let n = vertex_array.len();
    let mut out: Vec<Vertex> = Vec::new();
    let mut i: usize = 0;
    while i < n
        invariant
            i <= n,
            n == vertex_array@.len(),
            out@.len() == i,
            uniforms_within(*uniforms),
            forall|j: int|
                0 <= j < vertex_array@.len() ==> vertex_in_range(#[trigger] vertex_array@[j]),
            forall|j: int|
                0 <= j < i ==> #[trigger] out@[j] == spec_transformed(vertex_array@[j], *uniforms),
            forall|j: int| 0 <= j < i ==> raster_in_range(#[trigger] out@[j]),
        decreases n - i,
    {
        let v = vertex_array[i];
        let t = vertex_shader(&v, uniforms);
        out.push(t);
        i = i + 1;
    }
    out
}

/// The exact fragment sequence of the first k assembled triangles: the
/// concatenation, in triangle order, of each triangle's row-major
/// fragment list.
pub open spec fn spec_pipeline_frags(
    vs: Seq<Vertex>,
    light: Vec3Fx,
    width: int,
    height: int,
    k: int,
) -> Seq<Fragment>
    decreases k,
{
    if k <= 0 {
        Seq::empty()
    } else {
        spec_pipeline_frags(vs, light, width, height, k - 1) + spec_triangle_frags(
            tri_v0(vs, k - 1),
            tri_v1(vs, k - 1),
            tri_v2(vs, k - 1),
            light,
            width,
            height,
        )
    }
}

/// Two vertex lists that agree on their first 3k entries assemble the
/// same first k triangles, so their pipelines emit the same fragments.
pub proof fn lemma_pipeline_frags_prefix(
    vs1: Seq<Vertex>,
    vs2: Seq<Vertex>,
    light: Vec3Fx,
    width: int,
    height: int,
    k: int,
)
    requires
        0 <= k,
        3 * k <= vs1.len(),
        3 * k <= vs2.len(),
        forall|i: int| 0 <= i < 3 * k ==> vs1[i] == vs2[i],
    ensures
        spec_pipeline_frags(vs1, light, width, height, k) == spec_pipeline_frags(vs2, light,
            width, height, k),
    decreases k,
{
    if k > 0 {
        lemma_pipeline_frags_prefix(vs1, vs2, light, width, height, k - 1);
        assert(vs1[3 * (k - 1)] == vs2[3 * (k - 1)]);
        assert(vs1[3 * (k - 1) + 1] == vs2[3 * (k - 1) + 1]);
        assert(vs1[3 * (k - 1) + 2] == vs2[3 * (k - 1) + 2]);
    }
}

/// Trailing vertices never matter: one or two leftover vertices that do
/// not complete a triangle leave the pipeline's fragment sequence exactly
/// what the whole-triangle prefix alone produces.
pub proof fn lemma_trailing_vertices_dropped(
    vs: Seq<Vertex>,
    light: Vec3Fx,
    width: int,
    height: int,
)
    requires
        3 * (vs.len() as int / 3) <= vs.len(),
    ensures
        spec_pipeline_frags(vs, light, width, height, vs.len() as int / 3)
            == spec_pipeline_frags(
            vs.take(3 * (vs.len() as int / 3)),
            light,
            width,
            height,
            vs.len() as int / 3,
        ),
{
    let k = vs.len() as int / 3;
    let prefix = vs.take(3 * k);
    assert(forall|i: int| 0 <= i < 3 * k ==> vs[i] == #[trigger] prefix[i]);
    lemma_pipeline_frags_prefix(vs, prefix, light, width, height, k);
}

/// Primitive assembly and rasterization: every three consecutive
/// transformed vertices form one triangle (a trailing one or two vertices
/// are dropped), and each triangle's fragments are emitted in turn.  The
/// result holds exactly the fragments of the assembled triangles: every
/// fragment belongs to some triangle, and every inside pixel of every
/// triangle is represented.
pub fn rasterize_triangles(
    vertices: &Vec<Vertex>,
    width: usize,
    height: usize,
    light: &Vec3Fx,
) -> (frags: Vec<Fragment>)
    requires
        forall|i: int| 0 <= i < vertices@.len() ==> raster_in_range(#[trigger] vertices@[i]),
        vec3_within(*light, MAT_LIM as int),
        width <= 4000,
        height <= 4000,
    ensures
        frags@ == spec_pipeline_frags(vertices@, *light, width as int, height as int,
            vertices@.len() as int / 3),
        forall|i: int|
            0 <= i < frags@.len() ==> from_some_triangle(vertices@, *light, width as int,
                height as int, #[trigger] frags@[i]),
        forall|k: int, px: int, py: int|
            tri_exists(vertices@, k) && 0 <= px < width && 0 <= py < height && #[trigger] tri_inside(
                vertices@,
                k,
                px,
                py,
            ) ==> exists|i: int|
                0 <= i < frags@.len() && #[trigger] frags@[i] == tri_fragment(vertices@, k, *light,
                px, py),
{
    let n = vertices.len();
    let m = n / 3;
    let mut frags: Vec<Fragment> = Vec::new();
    let mut k: usize = 0;
    while k < m
        invariant
            n == vertices@.len(),
            m == n as int / 3,
            k <= m,
            forall|i: int| 0 <= i < vertices@.len() ==> raster_in_range(#[trigger] vertices@[i]),
            vec3_within(*light, MAT_LIM as int),
            width <= 4000,
            height <= 4000,
            frags@ == spec_pipeline_frags(vertices@, *light, width as int, height as int,
                k as int),
            forall|i: int|
                0 <= i < frags@.len() ==> from_some_triangle(vertices@, *light, width as int,
                    height as int, #[trigger] frags@[i]),
            forall|kk: int, px: int, py: int|
                tri_exists(vertices@, kk) && kk < k && 0 <= px < width && 0 <= py < height && #[trigger] tri_inside(
                    vertices@,
                    kk,
                    px,
                    py,
                ) ==> exists|i: int|
                    0 <= i < frags@.len() && #[trigger] frags@[i] == tri_fragment(vertices@, kk,
                    *light, px, py),
        decreases m - k,
    {
        proof {
            assert(3 * (n as int / 3) <= n as int) by (nonlinear_arith);
        }
        let a = vertices[3 * k];
        let b = vertices[3 * k + 1];
        let c = vertices[3 * k + 2];
        let tf = triangle(&a, &b, &c, width, height, light);
        let ghost before = frags@;
        let ghost tfv = tf@;
        let mut tf_mut = tf;
        frags.append(&mut tf_mut);
        proof {
            assert(frags@ == before + tfv);
            assert(a == tri_v0(vertices@, k as int));
            assert(b == tri_v1(vertices@, k as int));
            assert(c == tri_v2(vertices@, k as int));
            assert forall|i: int| 0 <= i < frags@.len() implies from_some_triangle(vertices@,
                *light, width as int, height as int, frags@[i]) by {
                if i < before.len() {
                    assert(frags@[i] == before[i]);
                    assert(from_some_triangle(vertices@, *light, width as int, height as int,
                        before[i]));
                    let kk = choose|kk: int|
                        #[trigger] tri_frag_ok(vertices@, kk, *light, width as int, height as int,
                        before[i]);
                    assert(tri_frag_ok(vertices@, kk, *light, width as int, height as int,
                        frags@[i]));
                } else {
                    assert(frags@[i] == tfv[i - before.len()]);
                    assert(frag_ok(a, b, c, *light, width as int, height as int, tfv[i
                        - before.len()]));
                    assert(tri_frag_ok(vertices@, k as int, *light, width as int, height as int,
                        frags@[i]));
                }
            }
            assert forall|kk: int, px: int, py: int|
                tri_exists(vertices@, kk) && kk < k + 1 && 0 <= px < width && 0 <= py < height
                    && #[trigger] tri_inside(vertices@, kk, px, py) implies exists|i: int|
                0 <= i < frags@.len() && #[trigger] frags@[i] == tri_fragment(vertices@, kk, *light,
                px, py) by {
                if kk < k {
                    let i = choose|i: int|
                        0 <= i < before.len() && #[trigger] before[i] == tri_fragment(vertices@, kk,
                        *light, px, py);
                    assert(frags@[i] == tri_fragment(vertices@, kk, *light, px, py));
                } else {
                    assert(pixel_inside(a, b, c, px, py));
                    let j = choose|j: int|
                        0 <= j < tfv.len() && #[trigger] tfv[j] == spec_fragment(a, b, c, *light,
                        px, py);
                    assert(frags@[before.len() + j] == tri_fragment(vertices@, kk, *light, px, py));
                }
            }
            assert(tfv == spec_triangle_frags(tri_v0(vertices@, k as int),
                tri_v1(vertices@, k as int), tri_v2(vertices@, k as int), *light, width as int,
                height as int));
            assert(frags@ == spec_pipeline_frags(vertices@, *light, width as int, height as int,
                k as int + 1));
        }
        k = k + 1;
    }
    frags
}

/// One depth-tested commit applied to the grids: where the fragment lies
/// on the grid and its depth is strictly closer than the stored one, the
/// shaded color and the depth land; otherwise nothing changes.
pub open spec fn spec_commit_step(
    buf: Seq<Color>,
    zbuf: Seq<i64>,
    w: int,
    h: int,
    f: Fragment,
    c: Color,
) -> (Seq<Color>, Seq<i64>) {
    let x = f.x as int;
    let y = f.y as int;
    let idx = y * w + x;
    if 0 <= x < w && 0 <= y < h && (f.depth as int) < zbuf[idx] {
        (buf.update(idx, c), zbuf.update(idx, f.depth))
    } else {
        (buf, zbuf)
    }
}

/// The first n fragments shaded and committed in order.
pub open spec fn spec_commit_prefix(
    buf: Seq<Color>,
    zbuf: Seq<i64>,
    w: int,
    h: int,
    kind: ShaderKind,
    time: u32,
    frags: Seq<Fragment>,
    replies: Seq<NoiseReply>,
    n: int,
) -> (Seq<Color>, Seq<i64>)
    decreases n,
{
    if n <= 0 {
        (buf, zbuf)
    } else {
        let prev = spec_commit_prefix(buf, zbuf, w, h, kind, time, frags, replies, n - 1);
        spec_commit_step(prev.0, prev.1, w, h, frags[n - 1], spec_fragment_shader(kind,
            frags[n - 1], time, replies[n - 1]))
    }
}

/// The depth test is order-independent: two fragments at the same pixel
/// with distinct depths leave the same committed color and depth in either
/// submission order — the closest wins regardless of draw order.
pub proof fn lemma_commit_order_independent(
    buf: Seq<Color>,
    zbuf: Seq<i64>,
    w: int,
    h: int,
    f1: Fragment,
    c1: Color,
    f2: Fragment,
    c2: Color,
)
    requires
        buf.len() == w * h,
        zbuf.len() == w * h,
        f1.x == f2.x,
        f1.y == f2.y,
        f1.depth != f2.depth,
    ensures
        ({
            let first = spec_commit_step(buf, zbuf, w, h, f1, c1);
            let ab = spec_commit_step(first.0, first.1, w, h, f2, c2);
            let second = spec_commit_step(buf, zbuf, w, h, f2, c2);
            let ba = spec_commit_step(second.0, second.1, w, h, f1, c1);
            ab == ba
        }),
{
    let x = f1.x as int;
    let y = f1.y as int;
    let idx = y * w + x;
    let first = spec_commit_step(buf, zbuf, w, h, f1, c1);
    let ab = spec_commit_step(first.0, first.1, w, h, f2, c2);
    let second = spec_commit_step(buf, zbuf, w, h, f2, c2);
    let ba = spec_commit_step(second.0, second.1, w, h, f1, c1);
    if 0 <= x < w && 0 <= y < h {
        crate::framebuffer::lemma_grid_index(w, h, x, y);
        let z0 = zbuf[idx];
        let d1 = f1.depth as int;
        let d2 = f2.depth as int;
        if d1 < z0 && d2 < z0 {
            if d1 < d2 {
                assert(ab.0 =~= ba.0);
                assert(ab.1 =~= ba.1);
            } else {
                assert(ab.0 =~= ba.0);
                assert(ab.1 =~= ba.1);
            }
        } else {
            assert(ab.0 =~= ba.0);
            assert(ab.1 =~= ba.1);
        }
    }
    assert(ab.0 =~= ba.0);
    assert(ab.1 =~= ba.1);
    assert(ab == ba);
}

/// The fragment shading and commit stage: shades every fragment with the
/// selected rule and its noise reply, and submits it to the frame
/// buffer's depth test, in order.
pub fn shade_and_commit(
    fb: &mut Framebuffer,
    uniforms: &Uniforms,
    kind: ShaderKind,
    frags: &Vec<Fragment>,
    replies: &Vec<NoiseReply>,
)
    requires
        old(fb).wf(),
        frags@.len() == replies@.len(),
        forall|i: int| 0 <= i < frags@.len() ==> frag_in_range(#[trigger] frags@[i]),
        forall|i: int| 0 <= i < replies@.len() ==> reply_in_range(#[trigger] replies@[i]),
    ensures
        final(fb).wf(),
        old(fb).same_shape(*final(fb)),
        final(fb).buffer@ == spec_commit_prefix(old(fb).buffer@, old(fb).zbuffer@,
            old(fb).width as int, old(fb).height as int, kind, uniforms.time, frags@, replies@,
            frags@.len() as int).0,
        final(fb).zbuffer@ == spec_commit_prefix(old(fb).buffer@, old(fb).zbuffer@,
            old(fb).width as int, old(fb).height as int, kind, uniforms.time, frags@, replies@,
            frags@.len() as int).1,
{
    let n = frags.len();
    let mut i: usize = 0;
    while i < n
        invariant
            i <= n,
            n == frags@.len(),
            n == replies@.len(),
            fb.wf(),
            old(fb).same_shape(*fb),
            forall|j: int| 0 <= j < frags@.len() ==> frag_in_range(#[trigger] frags@[j]),
            forall|j: int| 0 <= j < replies@.len() ==> reply_in_range(#[trigger] replies@[j]),
            fb.buffer@ == spec_commit_prefix(old(fb).buffer@, old(fb).zbuffer@,
                old(fb).width as int, old(fb).height as int, kind, uniforms.time, frags@, replies@,
                i as int).0,
            fb.zbuffer@ == spec_commit_prefix(old(fb).buffer@, old(fb).zbuffer@,
                old(fb).width as int, old(fb).height as int, kind, uniforms.time, frags@, replies@,
                i as int).1,
        decreases n - i,
    {
        let f = frags[i];
        let reply = replies[i];
        let shaded = fragment_shader(&f, uniforms, kind, &reply);
        fb.point(f.x, f.y, f.depth, shaded);
        i = i + 1;
    }
}

} // verus!
