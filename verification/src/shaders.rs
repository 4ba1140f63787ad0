//! The shading function library: a closed family of pure per-fragment
//! shading rules.
//!
//! Noise sampling is an external collaborator.  A shader that needs noise
//! first names the points to sample through `noise_request`; the caller
//! samples them (in thousandths, nominally within [-1, 1]) and hands the
//! values back to `fragment_shader` or to the individual shading function.
//! Every function here is a pure function of its arguments, so equal
//! inputs always give bit-identical colors.

use vstd::prelude::*;
use crate::fixed::{sabs, spec_sin_unit, spec_cos_unit, tmod, sin_unit, cos_unit, rem_trunc,
    div_pos, abs_fixed, lemma_mul_bound, HALF_PI_MILLI};
use crate::color::{Color, spec_scale, spec_blend_normal, spec_blend_add, spec_blend_multiply,
    spec_blend_subtract, spec_blend_screen, spec_lerp, spec_is_black};
use crate::fragment::Fragment;
use crate::geom::{vec3_within, MAT_LIM, COORD_SAT};
use crate::transform::Uniforms;

verus! {

/// The ranges a shader accepts: model-space position within the model
/// window, intensity in [0, 1], depth within the coordinate window.  The
/// rasterizer establishes all three.
pub open spec fn frag_in_range(f: Fragment) -> bool {
    vec3_within(f.vertex_position, MAT_LIM as int) && 0 <= f.intensity <= 1000 && sabs(
        f.depth as int,
    ) <= COORD_SAT
}

/// A noise value in the sampler's nominal range [-1, 1].
pub open spec fn noise_in_range(n: int) -> bool {
    -1000 <= n <= 1000
}

/// The shading rules a draw call can select from.
#[derive(Clone, Copy, Debug, PartialEq, Eq, Structural)]
pub enum ShaderKind {
    StaticPattern,
    MovingCircles,
    Combined,
    NeonLight,
    Dalmata,
    Cloud,
    Cellular,
    Lava,
    Earth,
    Luna,
}

/// The blend operators the blend-combination shader can apply.
#[derive(Clone, Copy, Debug, PartialEq, Eq, Structural)]
pub enum BlendMode {
    Normal,
    Multiply,
    Add,
    Subtract,
}

/// The noise samples a shader asks for at one fragment: none, one point of
/// plane noise, two points of plane noise, or two points of space noise.
#[derive(Clone, Copy, Debug, PartialEq, Eq, Structural)]
pub enum NoiseRequest {
    Nothing,
    Plane(i64, i64),
    PlanePair(i64, i64, i64, i64),
    SpacePair(i64, i64, i64, i64, i64, i64),
}

/// The sampled values handed back for a request.
#[derive(Clone, Copy, Debug, PartialEq, Eq, Structural)]
pub enum NoiseReply {
    Nothing,
    One(i64),
    Two(i64, i64),
}

/// The sine-product interference pattern: both sines scaled by ten
/// radians per unit, their product's magnitude driving red up and green
/// down over a fixed half-blue.
pub open spec fn spec_static_pattern(f: Fragment) -> Color {
    let p = sabs(
        spec_sin_unit(f.vertex_position.x * 10) * spec_sin_unit(f.vertex_position.y * 10),
    ) / 1000;
    Color { r: (p * 255 / 1000) as u8, g: ((1000 - p) * 255 / 1000) as u8, b: 128 }
}

/// The x center of the first moving circle at a time value.
pub open spec fn spec_circle1_x(time: u32) -> int {
    tmod(spec_sin_unit(time * 50) * 400 / 1000 + 500, 1000)
}

/// The x center of the second moving circle at a time value.
pub open spec fn spec_circle2_x(time: u32) -> int {
    tmod(spec_cos_unit(time * 50) * 400 / 1000 + 500, 1000)
}

/// Whether the fragment lies inside a circle of radius one tenth around
/// the given center (squared distances compared in millionths).
pub open spec fn spec_in_circle(x: int, y: int, ccx: int, ccy: int) -> bool {
    (x - ccx) * (x - ccx) + (y - ccy) * (y - ccy) < 10_000
}

/// Two circles orbit with time; a fragment inside either is white, all
/// others black.
pub open spec fn spec_moving_circles(f: Fragment, time: u32) -> Color {
    let x = f.vertex_position.x as int;
    let y = f.vertex_position.y as int;
    let hit = spec_in_circle(x, y, spec_circle1_x(time), 300) || spec_in_circle(
        x,
        y,
        spec_circle2_x(time),
        700,
    );
    if hit {
        Color { r: 255, g: 255, b: 255 }
    } else {
        Color { r: 0, g: 0, b: 0 }
    }
}

/// The circle layer wins where it is not black; otherwise the static
/// pattern shows; either way scaled by the fragment's intensity.
pub open spec fn spec_combined(f: Fragment, time: u32) -> Color {
    let base = spec_static_pattern(f);
    let circle = spec_moving_circles(f, time);
    if !spec_is_black(circle) {
        spec_scale(circle, f.intensity as int)
    } else {
        spec_scale(base, f.intensity as int)
    }
}

/// The distance from the fragment's y to the center of its glow stripe,
/// in thousandths (stripes repeat every fifth of a unit).
pub open spec fn spec_stripe_dist(y: int) -> int {
    sabs(tmod(y, 200) - 100)
}

/// The glow layer: a sine falloff over the distance to the stripe center,
/// strongest at the center, in neon blue.
pub open spec fn spec_glow(f: Fragment) -> Color {
    let d = spec_stripe_dist(f.vertex_position.y as int);
    let ratio = if d * 20 > 1000 {
        1000
    } else {
        d * 20
    };
    let gi = spec_sin_unit((1000 - ratio) * (HALF_PI_MILLI as int) / 1000);
    Color { r: 0, g: (gi * 500 / 1000 * 255 / 1000) as u8, b: (gi * 255 / 1000) as u8 }
}

/// The core layer: a narrow solid stripe around the same centers.
pub open spec fn spec_core(f: Fragment) -> Color {
    let d = spec_stripe_dist(f.vertex_position.y as int);
    let ci: int = if d < 20 {
        1000
    } else {
        0
    };
    Color {
        r: (ci * 800 / 1000 * 255 / 1000) as u8,
        g: (ci * 900 / 1000 * 255 / 1000) as u8,
        b: (ci * 255 / 1000) as u8,
    }
}

/// The neon composite: dark background screen-blended with the glow, the
/// core added on top, scaled by intensity.
pub open spec fn spec_neon_light(f: Fragment) -> Color {
    let background = Color { r: 10, g: 10, b: 20 };
    let blended = spec_blend_screen(background, spec_glow(f));
    spec_scale(spec_blend_add(blended, spec_core(f)), f.intensity as int)
}

/// The spot pattern: noise below one half picks white, above black,
/// scaled by intensity.
pub open spec fn spec_dalmata(f: Fragment, noise: int) -> Color {
    let c = if noise < 500 {
        Color { r: 255, g: 255, b: 255 }
    } else {
        Color { r: 0, g: 0, b: 0 }
    };
    spec_scale(c, f.intensity as int)
}

/// The moon pattern: the spot rule with two grays.
pub open spec fn spec_luna(f: Fragment, noise: int) -> Color {
    let c = if noise < 500 {
        Color { r: 135, g: 135, b: 135 }
    } else {
        Color { r: 191, g: 191, b: 191 }
    };
    spec_scale(c, f.intensity as int)
}

/// The cloud pattern: noise above one half is cloud white, the rest sky
/// blue, scaled by intensity.
pub open spec fn spec_cloud(f: Fragment, noise: int) -> Color {
    let c = if noise > 500 {
        Color { r: 255, g: 255, b: 255 }
    } else {
        Color { r: 30, g: 97, b: 145 }
    };
    spec_scale(c, f.intensity as int)
}

/// The cellular pattern: the noise magnitude runs a four-way threshold
/// ladder over fixed greens, scaled by intensity.
pub open spec fn spec_cellular(f: Fragment, noise: int) -> Color {
    let m = sabs(noise);
    let c = if m < 150 {
        Color { r: 85, g: 107, b: 47 }
    } else if m < 700 {
        Color { r: 124, g: 252, b: 0 }
    } else if m < 750 {
        Color { r: 34, g: 139, b: 34 }
    } else {
        Color { r: 39, g: 101, b: 167 }
    };
    spec_scale(c, f.intensity as int)
}

/// The lava pattern: two space-noise samples averaged, the result
/// interpolating from dark red-orange to bright orange, scaled by
/// intensity.
pub open spec fn spec_lava(f: Fragment, n1: int, n2: int) -> Color {
    let bright = Color { r: 255, g: 240, b: 0 };
    let dark = Color { r: 130, g: 20, b: 0 };
    let avg = crate::fixed::tdiv(n1 + n2, 2);
    spec_scale(spec_lerp(dark, bright, avg), f.intensity as int)
}

/// The base layer of the earth composite: the cellular ladder with its
/// own palette.
pub open spec fn spec_earth_base(cell_noise: int) -> Color {
    let m = sabs(cell_noise);
    if m < 150 {
        Color { r: 85, g: 107, b: 47 }
    } else if m < 700 {
        Color { r: 2, g: 100, b: 177 }
    } else if m < 750 {
        Color { r: 85, g: 107, b: 47 }
    } else {
        Color { r: 133, g: 98, b: 57 }
    }
}

/// The earth composite: the cellular base, half-blended with white where
/// the cloud noise exceeds one half, scaled by intensity.
pub open spec fn spec_earth(f: Fragment, cell_noise: int, cloud_noise: int) -> Color {
    let base = spec_earth_base(cell_noise);
    let blended = if cloud_noise > 500 {
        spec_blend_add(
            spec_scale(spec_blend_normal(base, Color { r: 255, g: 255, b: 255 }), 500),
            spec_scale(base, 500),
        )
    } else {
        base
    };
    spec_scale(blended, f.intensity as int)
}

/// The pulsation offset of the lava noise at a time value.
pub open spec fn spec_lava_pulsate(time: u32) -> int {
    spec_sin_unit(time * 2) * 500 / 1000
}

/// The sample points a shader asks for at a fragment.
pub open spec fn spec_noise_request(kind: ShaderKind, f: Fragment, time: u32) -> NoiseRequest {
    let x = f.vertex_position.x as int;
    let y = f.vertex_position.y as int;
    match kind {
        ShaderKind::Dalmata => NoiseRequest::Plane((x * 100) as i64, (y * 100) as i64),
        ShaderKind::Luna => NoiseRequest::Plane((x * 100) as i64, (y * 100) as i64),
        ShaderKind::Cloud => NoiseRequest::Plane(
            (x * 300 + 100_000 + time * 150_000) as i64,
            (y * 300 + 10_000) as i64,
        ),
        ShaderKind::Cellular => NoiseRequest::Plane(
            (x * 300 + 50_000) as i64,
            (y * 300 + 50_000) as i64,
        ),
        ShaderKind::Lava => {
            let z = f.depth as int;
            let p = spec_lava_pulsate(time);
            NoiseRequest::SpacePair(
                (x * 1000) as i64,
                (y * 1000) as i64,
                ((z + p) * 1000) as i64,
                ((x + 1_000_000) * 1000) as i64,
                ((y + 1_000_000) * 1000) as i64,
                ((z + 1_000_000 + p) * 1000) as i64,
            )
        },
        ShaderKind::Earth => {
            let t = (time * 500) as int;
            let dx = 50_000 + spec_sin_unit(t) * 10;
            let dy = 50_000 + spec_cos_unit(t) * 10;
            NoiseRequest::PlanePair(
                (x * 30 + dx) as i64,
                (y * 30 + dy) as i64,
                (x * 100 + 100_000 + t) as i64,
                (y * 100 + 100_000) as i64,
            )
        },
        _ => NoiseRequest::Nothing,
    }
}

/// The color the selected shader produces from a fragment, the time and
/// the sampled noise; a reply whose shape does not match the shader's
/// request yields black.
pub open spec fn spec_fragment_shader(
    kind: ShaderKind,
    f: Fragment,
    time: u32,
    reply: NoiseReply,
) -> Color {
    match (kind, reply) {
        (ShaderKind::StaticPattern, NoiseReply::Nothing) => spec_static_pattern(f),
        (ShaderKind::MovingCircles, NoiseReply::Nothing) => spec_moving_circles(f, time),
        (ShaderKind::Combined, NoiseReply::Nothing) => spec_combined(f, time),
        (ShaderKind::NeonLight, NoiseReply::Nothing) => spec_neon_light(f),
        (ShaderKind::Dalmata, NoiseReply::One(n)) => spec_dalmata(f, n as int),
        (ShaderKind::Cloud, NoiseReply::One(n)) => spec_cloud(f, n as int),
        (ShaderKind::Cellular, NoiseReply::One(n)) => spec_cellular(f, n as int),
        (ShaderKind::Luna, NoiseReply::One(n)) => spec_luna(f, n as int),
        (ShaderKind::Lava, NoiseReply::Two(n1, n2)) => spec_lava(f, n1 as int, n2 as int),
        (ShaderKind::Earth, NoiseReply::Two(n1, n2)) => spec_earth(f, n1 as int, n2 as int),
        _ => Color { r: 0, g: 0, b: 0 },
    }
}

/// The sine-product interference pattern.
pub fn static_pattern_shader(fragment: &Fragment, _uniforms: &Uniforms) -> (c: Color)
    requires
        frag_in_range(*fragment),
    ensures
        c == spec_static_pattern(*fragment),
{
    let x = fragment.vertex_position.x;
    let y = fragment.vertex_position.y;
    let s1 = sin_unit(x * 10);
    let s2 = sin_unit(y * 10);
    proof {
        lemma_mul_bound(s1 as int, s2 as int, 1000, 1000);
    }
    let p = div_pos(abs_fixed(s1 * s2), 1000);
    Color { r: div_pos(p * 255, 1000) as u8, g: div_pos((1000 - p) * 255, 1000) as u8, b: 128 }
}

/// Two circles orbiting with time over black.
pub fn moving_circles_shader(fragment: &Fragment, uniforms: &Uniforms) -> (c: Color)
    requires
        frag_in_range(*fragment),
    ensures
        c == spec_moving_circles(*fragment, uniforms.time),
{
    let x = fragment.vertex_position.x;
    let y = fragment.vertex_position.y;
    let t: i64 = (uniforms.time as i64) * 50;
    let c1x = rem_trunc(div_pos((sin_unit(t) + 1000) * 400, 1000) - 400 + 500, 1000);
    let c2x = rem_trunc(div_pos((cos_unit(t) + 1000) * 400, 1000) - 400 + 500, 1000);
    proof {
        assert((spec_sin_unit(t as int) + 1000) * 400 / 1000 - 400 == spec_sin_unit(t as int) * 400
            / 1000) by (nonlinear_arith)
            requires
                -1000 <= spec_sin_unit(t as int) <= 1000,
        ;
        assert((spec_cos_unit(t as int) + 1000) * 400 / 1000 - 400 == spec_cos_unit(t as int) * 400
            / 1000) by (nonlinear_arith)
            requires
                -1000 <= spec_cos_unit(t as int) <= 1000,
        ;
        lemma_mul_bound(x as int - c1x as int, x as int - c1x as int, 3_000_000, 3_000_000);
        lemma_mul_bound(x as int - c2x as int, x as int - c2x as int, 3_000_000, 3_000_000);
        lemma_mul_bound(y as int - 300, y as int - 300, 3_000_000, 3_000_000);
        lemma_mul_bound(y as int - 700, y as int - 700, 3_000_000, 3_000_000);
    }
    let d1 = (x - c1x) * (x - c1x) + (y - 300) * (y - 300);
    let d2 = (x - c2x) * (x - c2x) + (y - 700) * (y - 700);
    if d1 < 10_000 || d2 < 10_000 {
        Color { r: 255, g: 255, b: 255 }
    } else {
        Color { r: 0, g: 0, b: 0 }
    }
}

/// The static pattern with the moving circles layered on top, scaled by
/// intensity.
pub fn combined_shader(fragment: &Fragment, uniforms: &Uniforms) -> (c: Color)
    requires
        frag_in_range(*fragment),
    ensures
        c == spec_combined(*fragment, uniforms.time),
{
    let base_color = static_pattern_shader(fragment, uniforms);
    let circle_color = moving_circles_shader(fragment, uniforms);
    if !circle_color.is_black() {
        circle_color.scale(fragment.intensity)
    } else {
        base_color.scale(fragment.intensity)
    }
}

/// A flat purple.
fn purple_shader(_fragment: &Fragment) -> (c: Color)
    ensures
        c == (Color { r: 128, g: 0, b: 128 }),
{
    Color { r: 128, g: 0, b: 128 }
}

/// A yellow disc of radius one quarter around the origin over black.
fn circle_shader(fragment: &Fragment) -> (c: Color)
    requires
        frag_in_range(*fragment),
    ensures
        c == (if (fragment.vertex_position.x as int) * (fragment.vertex_position.x as int) + (
        fragment.vertex_position.y as int) * (fragment.vertex_position.y as int) < 62_500 {
            Color { r: 255, g: 255, b: 0 }
        } else {
            Color { r: 0, g: 0, b: 0 }
        }),
{
    let x = fragment.vertex_position.x;
    let y = fragment.vertex_position.y;
    proof {
        lemma_mul_bound(x as int, x as int, MAT_LIM as int, MAT_LIM as int);
        lemma_mul_bound(y as int, y as int, MAT_LIM as int, MAT_LIM as int);
    }
    if x * x + y * y < 62_500 {
        Color { r: 255, g: 255, b: 0 }
    } else {
        Color { r: 0, g: 0, b: 0 }
    }
}

/// The purple base and the yellow disc, composited by the selected blend
/// operator and scaled by intensity.
pub fn combined_blend_shader(fragment: &Fragment, blend_mode: BlendMode) -> (c: Color)
    requires
        frag_in_range(*fragment),
    ensures
        ({
            let base = Color { r: 128, g: 0, b: 128 };
            let circle = if (fragment.vertex_position.x as int) * (
            fragment.vertex_position.x as int) + (fragment.vertex_position.y as int) * (
            fragment.vertex_position.y as int) < 62_500 {
                Color { r: 255, g: 255, b: 0 }
            } else {
                Color { r: 0, g: 0, b: 0 }
            };
            let combined = match blend_mode {
                BlendMode::Normal => spec_blend_normal(base, circle),
                BlendMode::Multiply => spec_blend_multiply(base, circle),
                BlendMode::Add => spec_blend_add(base, circle),
                BlendMode::Subtract => spec_blend_subtract(base, circle),
            };
            c == spec_scale(combined, fragment.intensity as int)
        }),
{
    let base_color = purple_shader(fragment);
    let circle_color = circle_shader(fragment);
    let combined_color = match blend_mode {
        BlendMode::Normal => base_color.blend_normal(&circle_color),
        BlendMode::Multiply => base_color.blend_multiply(&circle_color),
        BlendMode::Add => base_color.blend_add(&circle_color),
        BlendMode::Subtract => base_color.blend_subtract(&circle_color),
    };
    combined_color.scale(fragment.intensity)
}

/// The glow layer of the neon composite.
fn glow_shader(fragment: &Fragment) -> (c: Color)
    requires
        frag_in_range(*fragment),
    ensures
        c == spec_glow(*fragment),
{
    let y = fragment.vertex_position.y;
    let m = rem_trunc(y, 200);
    let d = abs_fixed(m - 100);
    let scaled: i64 = d * 20;
    let ratio: i64 = if scaled > 1000 {
        1000
    } else {
        scaled
    };
    let arg = div_pos((1000 - ratio) * HALF_PI_MILLI, 1000);
    let gi = sin_unit(arg);
    proof {
        vstd::arithmetic::div_mod::lemma_small_mod(arg as nat, crate::fixed::TWO_PI_MILLI as nat);
        crate::fixed::lemma_sin_half_range(arg as int);
    }
    Color {
        r: 0,
        g: div_pos(div_pos(gi * 500, 1000) * 255, 1000) as u8,
        b: div_pos(gi * 255, 1000) as u8,
    }
}

/// The core layer of the neon composite.
fn core_shader(fragment: &Fragment) -> (c: Color)
    requires
        frag_in_range(*fragment),
    ensures
        c == spec_core(*fragment),
{
    let y = fragment.vertex_position.y;
    let m = rem_trunc(y, 200);
    let d = abs_fixed(m - 100);
    let ci: i64 = if d < 20 {
        1000
    } else {
        0
    };
    Color {
        r: div_pos(div_pos(ci * 800, 1000) * 255, 1000) as u8,
        g: div_pos(div_pos(ci * 900, 1000) * 255, 1000) as u8,
        b: div_pos(ci * 255, 1000) as u8,
    }
}

/// A flat dark blue.
fn background_shader(_fragment: &Fragment) -> (c: Color)
    ensures
        c == (Color { r: 10, g: 10, b: 20 }),
{
    Color { r: 10, g: 10, b: 20 }
}

/// The neon composite: background, glow and core layered by screen and
/// additive blending, scaled by intensity.
pub fn neon_light_shader(fragment: &Fragment, _uniforms: &Uniforms) -> (c: Color)
    requires
        frag_in_range(*fragment),
    ensures
        c == spec_neon_light(*fragment),
{
    let background = background_shader(fragment);
    let glow = glow_shader(fragment);
    let core = core_shader(fragment);
    let blended_glow = background.blend_screen(&glow);
    blended_glow.blend_add(&core).scale(fragment.intensity)
}

/// The spot pattern.
pub fn dalmata_shader(fragment: &Fragment, _uniforms: &Uniforms, noise_value: i64) -> (c: Color)
    requires
        frag_in_range(*fragment),
    ensures
        c == spec_dalmata(*fragment, noise_value as int),
{
    let noise_color = if noise_value < 500 {
        Color { r: 255, g: 255, b: 255 }
    } else {
        Color { r: 0, g: 0, b: 0 }
    };
    noise_color.scale(fragment.intensity)
}

/// The moon pattern.
pub fn luna_shader(fragment: &Fragment, _uniforms: &Uniforms, noise_value: i64) -> (c: Color)
    requires
        frag_in_range(*fragment),
    ensures
        c == spec_luna(*fragment, noise_value as int),
{
    let noise_color = if noise_value < 500 {
        Color { r: 135, g: 135, b: 135 }
    } else {
        Color { r: 191, g: 191, b: 191 }
    };
    noise_color.scale(fragment.intensity)
}

/// The cloud pattern.
pub fn cloud_shader(fragment: &Fragment, _uniforms: &Uniforms, noise_value: i64) -> (c: Color)
    requires
        frag_in_range(*fragment),
    ensures
        c == spec_cloud(*fragment, noise_value as int),
{
    let noise_color = if noise_value > 500 {
        Color { r: 255, g: 255, b: 255 }
    } else {
        Color { r: 30, g: 97, b: 145 }
    };
    noise_color.scale(fragment.intensity)
}

/// The cellular pattern.
pub fn cellular_shader(fragment: &Fragment, _uniforms: &Uniforms, noise_value: i64) -> (c: Color)
    requires
        frag_in_range(*fragment),
        noise_value != i64::MIN,
    ensures
        c == spec_cellular(*fragment, noise_value as int),
{
    let m = abs_fixed(noise_value);
    let final_color = if m < 150 {
        Color { r: 85, g: 107, b: 47 }
    } else if m < 700 {
        Color { r: 124, g: 252, b: 0 }
    } else if m < 750 {
        Color { r: 34, g: 139, b: 34 }
    } else {
        Color { r: 39, g: 101, b: 167 }
    };
    final_color.scale(fragment.intensity)
}

/// The lava pattern, from two space-noise samples.
pub fn lava_shader(
    fragment: &Fragment,
    _uniforms: &Uniforms,
    noise_value1: i64,
    noise_value2: i64,
) -> (c: Color)
    requires
        frag_in_range(*fragment),
        noise_in_range(noise_value1 as int),
        noise_in_range(noise_value2 as int),
    ensures
        c == spec_lava(*fragment, noise_value1 as int, noise_value2 as int),
{
    let bright_color = Color { r: 255, g: 240, b: 0 };
    let dark_color = Color { r: 130, g: 20, b: 0 };
    let s: i64 = noise_value1 + noise_value2;
    let avg: i64 = if s >= 0 {
        div_pos(s, 2)
    } else {
        -div_pos(-s, 2)
    };
    let color = dark_color.lerp(&bright_color, avg);
    color.scale(fragment.intensity)
}

/// The earth composite, from a cell sample and a cloud sample.
pub fn earth(
    fragment: &Fragment,
    _uniforms: &Uniforms,
    cell_noise_value: i64,
    cloud_noise_value: i64,
) -> (c: Color)
    requires
        frag_in_range(*fragment),
        cell_noise_value != i64::MIN,
    ensures
        c == spec_earth(*fragment, cell_noise_value as int, cloud_noise_value as int),
{
    let m = abs_fixed(cell_noise_value);
    let base_color = if m < 150 {
        Color { r: 85, g: 107, b: 47 }
    } else if m < 700 {
        Color { r: 2, g: 100, b: 177 }
    } else if m < 750 {
        Color { r: 85, g: 107, b: 47 }
    } else {
        Color { r: 133, g: 98, b: 57 }
    };
    let blended_color = if cloud_noise_value > 500 {
        let cloud_color = Color { r: 255, g: 255, b: 255 };
        base_color.blend_normal(&cloud_color).scale(500).plus(&base_color.scale(500))
    } else {
        base_color
    };
    blended_color.scale(fragment.intensity)
}

/// The sample points the selected shader needs at a fragment.
pub fn noise_request(kind: ShaderKind, fragment: &Fragment, uniforms: &Uniforms) -> (req:
    NoiseRequest)
    requires
        frag_in_range(*fragment),
    ensures
        req == spec_noise_request(kind, *fragment, uniforms.time),
{
    let x = fragment.vertex_position.x;
    let y = fragment.vertex_position.y;
    match kind {
        ShaderKind::Dalmata => NoiseRequest::Plane(x * 100, y * 100),
        ShaderKind::Luna => NoiseRequest::Plane(x * 100, y * 100),
        ShaderKind::Cloud => NoiseRequest::Plane(
            x * 300 + 100_000 + (uniforms.time as i64) * 150_000,
            y * 300 + 10_000,
        ),
        ShaderKind::Cellular => NoiseRequest::Plane(x * 300 + 50_000, y * 300 + 50_000),
        ShaderKind::Lava => {
            let z = fragment.depth;
            let p = div_pos((sin_unit((uniforms.time as i64) * 2) + 1000) * 500, 1000) - 500;
            proof {
                assert((spec_sin_unit(uniforms.time as int * 2) + 1000) * 500 / 1000 - 500
                    == spec_sin_unit(uniforms.time as int * 2) * 500 / 1000) by (nonlinear_arith)
                    requires
                        -1000 <= spec_sin_unit(uniforms.time as int * 2) <= 1000,
                ;
            }
            NoiseRequest::SpacePair(
                x * 1000,
                y * 1000,
                (z + p) * 1000,
                (x + 1_000_000) * 1000,
                (y + 1_000_000) * 1000,
                (z + 1_000_000 + p) * 1000,
            )
        },
        ShaderKind::Earth => {
            let t: i64 = (uniforms.time as i64) * 500;
            let dx: i64 = 50_000 + sin_unit(t) * 10;
            let dy: i64 = 50_000 + cos_unit(t) * 10;
            NoiseRequest::PlanePair(x * 30 + dx, y * 30 + dy, x * 100 + 100_000 + t, y * 100
                + 100_000)
        },
        _ => NoiseRequest::Nothing,
    }
}

/// Applies the selected shading rule to one fragment: the polymorphic
/// fragment-shading entry of the pipeline.  A reply whose shape does not
/// match the shader's request yields black.
pub fn fragment_shader(
    fragment: &Fragment,
    uniforms: &Uniforms,
    kind: ShaderKind,
    reply: &NoiseReply,
) -> (c: Color)
    requires
        frag_in_range(*fragment),
        reply_in_range(*reply),
    ensures
        c == spec_fragment_shader(kind, *fragment, uniforms.time, *reply),
{
    match (kind, *reply) {
        (ShaderKind::StaticPattern, NoiseReply::Nothing) => static_pattern_shader(
            fragment,
            uniforms,
        ),
        (ShaderKind::MovingCircles, NoiseReply::Nothing) => moving_circles_shader(
            fragment,
            uniforms,
        ),
        (ShaderKind::Combined, NoiseReply::Nothing) => combined_shader(fragment, uniforms),
        (ShaderKind::NeonLight, NoiseReply::Nothing) => neon_light_shader(fragment, uniforms),
        (ShaderKind::Dalmata, NoiseReply::One(n)) => dalmata_shader(fragment, uniforms, n),
        (ShaderKind::Cloud, NoiseReply::One(n)) => cloud_shader(fragment, uniforms, n),
        (ShaderKind::Cellular, NoiseReply::One(n)) => cellular_shader(fragment, uniforms, n),
        (ShaderKind::Luna, NoiseReply::One(n)) => luna_shader(fragment, uniforms, n),
        (ShaderKind::Lava, NoiseReply::Two(n1, n2)) => lava_shader(fragment, uniforms, n1, n2),
        (ShaderKind::Earth, NoiseReply::Two(n1, n2)) => earth(fragment, uniforms, n1, n2),
        _ => Color { r: 0, g: 0, b: 0 },
    }
}

/// Whether every sampled value a reply carries lies in the sampler's
/// nominal range.
pub open spec fn reply_in_range(reply: NoiseReply) -> bool {
    match reply {
        NoiseReply::Nothing => true,
        NoiseReply::One(a) => noise_in_range(a as int),
        NoiseReply::Two(a, b) => noise_in_range(a as int) && noise_in_range(b as int),
    }
}

} // verus!
