//! An RGB color with 8-bit channels, saturating arithmetic and the blend
//! operators of the compositing stage.
//!
//! Every operation clamps each channel to [0, 255]; wide intermediates are
//! used so no computation overflows before the final clamp.  Fractional
//! factors (interpolation weights, scalar multipliers) arrive in the crate's
//! fixed-point format: thousandths of a unit.

use vstd::prelude::*;
use crate::fixed::{clamp01, UNIT};

verus! {

/// An RGB triple, one byte per channel.
#[derive(Clone, Copy, Debug, PartialEq, Eq, Structural)]
pub struct Color {
    pub r: u8,
    pub g: u8,
    pub b: u8,
}

/// An integer clamped to the representable channel range [0, 255].
pub open spec fn clamp_channel(v: int) -> int {
    if v < 0 {
        0
    } else if v > 255 {
        255
    } else {
        v
    }
}

/// The 24-bit packed form of a color: high byte red, low byte blue.
pub open spec fn spec_to_hex(c: Color) -> u32 {
    ((c.r as u32) << 16) | ((c.g as u32) << 8) | (c.b as u32)
}

/// The color encoded by the low 24 bits of a packed integer.
pub open spec fn spec_from_hex(hex: u32) -> Color {
    Color { r: ((hex >> 16) & 0xFF) as u8, g: ((hex >> 8) & 0xFF) as u8, b: (hex & 0xFF) as u8 }
}

/// Whether every channel is zero.
pub open spec fn spec_is_black(c: Color) -> bool {
    c.r == 0 && c.g == 0 && c.b == 0
}

/// One channel of a linear interpolation by a factor in thousandths,
/// rounded to the nearest integer (the factor is already clamped).
pub open spec fn lerp_channel(a: int, b: int, t: int) -> int {
    (a * UNIT + (b - a) * t + UNIT / 2) / UNIT as int
}

/// Linear interpolation of two colors by a factor in thousandths; the factor
/// is clamped to [0, 1000] first.
pub open spec fn spec_lerp(a: Color, b: Color, t: int) -> Color {
    let tc = clamp01(t);
    Color {
        r: lerp_channel(a.r as int, b.r as int, tc) as u8,
        g: lerp_channel(a.g as int, b.g as int, tc) as u8,
        b: lerp_channel(a.b as int, b.b as int, tc) as u8,
    }
}

/// One channel scaled by a factor in thousandths, truncated, then clamped.
pub open spec fn scale_channel(c: int, s: int) -> int {
    if s <= 0 {
        0
    } else {
        clamp_channel(c * s / UNIT as int)
    }
}

/// A color scaled per channel by a factor in thousandths.
pub open spec fn spec_scale(c: Color, s: int) -> Color {
    Color {
        r: scale_channel(c.r as int, s) as u8,
        g: scale_channel(c.g as int, s) as u8,
        b: scale_channel(c.b as int, s) as u8,
    }
}

/// Per-channel saturating sum of two colors.
pub open spec fn spec_blend_add(base: Color, blend: Color) -> Color {
    Color {
        r: clamp_channel(base.r as int + blend.r as int) as u8,
        g: clamp_channel(base.g as int + blend.g as int) as u8,
        b: clamp_channel(base.b as int + blend.b as int) as u8,
    }
}

/// Per-channel difference of two colors, floored at zero.
pub open spec fn spec_blend_subtract(base: Color, blend: Color) -> Color {
    Color {
        r: clamp_channel(base.r as int - blend.r as int) as u8,
        g: clamp_channel(base.g as int - blend.g as int) as u8,
        b: clamp_channel(base.b as int - blend.b as int) as u8,
    }
}

/// Per-channel product of two colors, normalized by 255.
pub open spec fn spec_blend_multiply(base: Color, blend: Color) -> Color {
    Color {
        r: (base.r as int * blend.r as int / 255) as u8,
        g: (base.g as int * blend.g as int / 255) as u8,
        b: (base.b as int * blend.b as int / 255) as u8,
    }
}

/// The screen blend: 255 - (255-base)(255-blend)/255 per channel.
pub open spec fn spec_blend_screen(base: Color, blend: Color) -> Color {
    Color {
        r: (255 - (255 - base.r as int) * (255 - blend.r as int) / 255) as u8,
        g: (255 - (255 - base.g as int) * (255 - blend.g as int) / 255) as u8,
        b: (255 - (255 - base.b as int) * (255 - blend.b as int) / 255) as u8,
    }
}

/// The normal blend: the blend color wins unless it is pure black.
pub open spec fn spec_blend_normal(base: Color, blend: Color) -> Color {
    if spec_is_black(blend) {
        base
    } else {
        blend
    }
}

impl Color {
    /// Builds a color from its three channel values.
    pub fn new(r: u8, g: u8, b: u8) -> (c: Color)
        ensures
            c == (Color { r, g, b }),
    {
        Color { r, g, b }
    }

    /// Clamps a wide intermediate to the channel range.
    fn clamp(value: i64) -> (c: u8)
        ensures
            c as int == clamp_channel(value as int),
    {
        if value < 0 {
            0
        } else if value > 255 {
            255
        } else {
            value as u8
        }
    }

    /// Pure black.
    pub fn black() -> (c: Color)
        ensures
            c == (Color { r: 0, g: 0, b: 0 }),
    {
        Color { r: 0, g: 0, b: 0 }
    }

    /// Unpacks a 24-bit color: high byte red, low byte blue.
    pub fn from_hex(hex: u32) -> (c: Color)
        ensures
            c == spec_from_hex(hex),
    {
        Color {
            r: ((hex >> 16) & 0xFF) as u8,
            g: ((hex >> 8) & 0xFF) as u8,
            b: (hex & 0xFF) as u8,
        }
    }

    /// Packs the color into a 24-bit integer: high byte red, low byte blue.
    pub fn to_hex(&self) -> (hex: u32)
        ensures
            hex == spec_to_hex(*self),
    {
        ((self.r as u32) << 16) | ((self.g as u32) << 8) | (self.b as u32)
    }

    /// Builds a color from three fixed-point values in thousandths of full
    /// scale; values outside [0, 1] are clamped before scaling to [0, 255].
    pub fn from_unit(r: i64, g: i64, b: i64) -> (c: Color)
        ensures
            c.r as int == clamp01(r as int) * 255 / (UNIT as int),
            c.g as int == clamp01(g as int) * 255 / (UNIT as int),
            c.b as int == clamp01(b as int) * 255 / (UNIT as int),
    {
        let rc: i64 = crate::fixed::clamp_unit(r);
        let gc: i64 = crate::fixed::clamp_unit(g);
        let bc: i64 = crate::fixed::clamp_unit(b);
        Color { r: (rc * 255 / UNIT) as u8, g: (gc * 255 / UNIT) as u8, b: (bc * 255 / UNIT) as u8 }
    }

    /// Linear interpolation toward `other` by a factor in thousandths,
    /// rounding each channel to the nearest value; the factor is clamped to
    /// [0, 1].
    pub fn lerp(&self, other: &Color, t: i64) -> (c: Color)
        ensures
            c == spec_lerp(*self, *other, t as int),
    {
        let tc: i64 = crate::fixed::clamp_unit(t);
        proof {
            lemma_lerp_channel_in_range(self.r as int, other.r as int, tc as int);
            lemma_lerp_channel_in_range(self.g as int, other.g as int, tc as int);
            lemma_lerp_channel_in_range(self.b as int, other.b as int, tc as int);
        }
        let r: i64 = (self.r as i64) * UNIT + ((other.r as i64) - (self.r as i64)) * tc;
        let g: i64 = (self.g as i64) * UNIT + ((other.g as i64) - (self.g as i64)) * tc;
        let b: i64 = (self.b as i64) * UNIT + ((other.b as i64) - (self.b as i64)) * tc;
        Color {
            r: ((r + 500) / UNIT) as u8,
            g: ((g + 500) / UNIT) as u8,
            b: ((b + 500) / UNIT) as u8,
        }
    }

    /// Whether the color is pure black.
    pub fn is_black(&self) -> (black: bool)
        ensures
            black == spec_is_black(*self),
    {
        self.r == 0 && self.g == 0 && self.b == 0
    }

    /// The normal blend: the blend color wins unless it is pure black, in
    /// which case the base color shows through.
    pub fn blend_normal(&self, blend: &Color) -> (c: Color)
        ensures
            c == spec_blend_normal(*self, *blend),
    {
        if blend.is_black() {
            *self
        } else {
            *blend
        }
    }

    /// The multiply blend: channel product divided by 255.
    pub fn blend_multiply(&self, blend: &Color) -> (c: Color)
        ensures
            c == spec_blend_multiply(*self, *blend),
    {
        proof {
            lemma_byte_mul_bound(self.r as int, blend.r as int);
            lemma_byte_mul_bound(self.g as int, blend.g as int);
            lemma_byte_mul_bound(self.b as int, blend.b as int);
        }
        Color {
            r: ((self.r as u16 * blend.r as u16) / 255) as u8,
            g: ((self.g as u16 * blend.g as u16) / 255) as u8,
            b: ((self.b as u16 * blend.b as u16) / 255) as u8,
        }
    }

    /// The additive blend: per-channel saturating sum.
    pub fn blend_add(&self, blend: &Color) -> (c: Color)
        ensures
            c == spec_blend_add(*self, *blend),
    {
        Color {
            r: Color::clamp(self.r as i64 + blend.r as i64),
            g: Color::clamp(self.g as i64 + blend.g as i64),
            b: Color::clamp(self.b as i64 + blend.b as i64),
        }
    }

    /// The subtractive blend: base minus blend, floored at zero.
    pub fn blend_subtract(&self, blend: &Color) -> (c: Color)
        ensures
            c == spec_blend_subtract(*self, *blend),
    {
        Color {
            r: Color::clamp(self.r as i64 - blend.r as i64),
            g: Color::clamp(self.g as i64 - blend.g as i64),
            b: Color::clamp(self.b as i64 - blend.b as i64),
        }
    }

    /// The screen blend: inverted product of the inverted channels.
    pub fn blend_screen(&self, blend: &Color) -> (c: Color)
        ensures
            c == spec_blend_screen(*self, *blend),
    {
        proof {
            lemma_byte_mul_bound(255 - self.r as int, 255 - blend.r as int);
            lemma_byte_mul_bound(255 - self.g as int, 255 - blend.g as int);
            lemma_byte_mul_bound(255 - self.b as int, 255 - blend.b as int);
        }
        Color {
            r: (255 - ((255 - self.r as u16) * (255 - blend.r as u16)) / 255) as u8,
            g: (255 - ((255 - self.g as u16) * (255 - blend.g as u16)) / 255) as u8,
            b: (255 - ((255 - self.b as u16) * (255 - blend.b as u16)) / 255) as u8,
        }
    }

    /// The saturating per-channel sum, the counterpart of color addition.
    pub fn plus(&self, other: &Color) -> (c: Color)
        ensures
            c == spec_blend_add(*self, *other),
    {
        self.blend_add(other)
    }

    /// Per-channel scaling by a fixed-point factor in thousandths, clamped
    /// to the channel range.
    pub fn scale(&self, s: i64) -> (c: Color)
        ensures
            c == spec_scale(*self, s as int),
    {
        if s <= 0 {
            Color { r: 0, g: 0, b: 0 }
        } else {
            let sc: i64 = if s > 2_000_000 {
                2_000_000
            } else {
                s
            };
            proof {
                lemma_scale_channel_clip(self.r as int, s as int, sc as int);
                lemma_scale_channel_clip(self.g as int, s as int, sc as int);
                lemma_scale_channel_clip(self.b as int, s as int, sc as int);
            }
            Color {
                r: Color::clamp((self.r as i64) * sc / UNIT),
                g: Color::clamp((self.g as i64) * sc / UNIT),
                b: Color::clamp((self.b as i64) * sc / UNIT),
            }
        }
    }
}

/// An interpolated channel stays within the representable channel range.
proof fn lemma_lerp_channel_in_range(a: int, b: int, t: int)
    requires
        0 <= a <= 255,
        0 <= b <= 255,
        0 <= t <= UNIT,
    ensures
        0 <= a * (UNIT as int) + (b - a) * t <= 255 * (UNIT as int),
        -(255 * (UNIT as int)) <= (b - a) * t <= 255 * (UNIT as int),
        0 <= lerp_channel(a, b, t) <= 255,
{
    assert(a * (UNIT as int) + (b - a) * t == a * ((UNIT as int) - t) + b * t) by (nonlinear_arith);
    assert(0 <= a * ((UNIT as int) - t) + b * t <= 255 * (UNIT as int)) by (nonlinear_arith)
        requires
            0 <= a <= 255,
            0 <= b <= 255,
            0 <= t <= UNIT,
    ;
    assert(-(255 * (UNIT as int)) <= (b - a) * t <= 255 * (UNIT as int)) by (nonlinear_arith)
        requires
            0 <= a <= 255,
            0 <= b <= 255,
            0 <= t <= UNIT,
    ;
}

/// Bounds of a product of two channel values and of its division by 255.
proof fn lemma_byte_mul_bound(x: int, y: int)
    requires
        0 <= x <= 255,
        0 <= y <= 255,
    ensures
        0 <= x * y <= 255 * 255,
        0 <= x * y / 255 <= 255,
{
    assert(0 <= x * y <= 255 * 255) by (nonlinear_arith)
        requires
            0 <= x <= 255,
            0 <= y <= 255,
    ;
}

/// Scaling factors beyond 2000x already saturate every nonzero channel, so
/// clipping the factor there does not change the clamped result.
proof fn lemma_scale_channel_clip(c: int, s: int, sc: int)
    requires
        0 <= c <= 255,
        s > 0,
        sc == if s > 2_000_000 { 2_000_000 as int } else { s },
    ensures
        clamp_channel(c * sc / (UNIT as int)) == scale_channel(c, s),
        0 <= c * sc <= 255 * 2_000_000,
{
    assert(0 <= c * sc <= 255 * 2_000_000) by (nonlinear_arith)
        requires
            0 <= c <= 255,
            0 < sc <= 2_000_000,
    ;
    if s > 2_000_000 {
        if c == 0 {
            assert(c * sc == 0) by (nonlinear_arith)
                requires
                    c == 0,
            ;
            assert(c * s == 0) by (nonlinear_arith)
                requires
                    c == 0,
            ;
        } else {
            assert(c * sc >= 2_000_000) by (nonlinear_arith)
                requires
                    c >= 1,
                    sc == 2_000_000,
            ;
            assert(c * s >= 2_000_001) by (nonlinear_arith)
                requires
                    c >= 1,
                    s > 2_000_000,
            ;
            assert(c * sc / (UNIT as int) >= 2000) by (nonlinear_arith)
                requires
                    c * sc >= 2_000_000,
                    UNIT == 1000,
            ;
            assert(c * s / (UNIT as int) >= 2000) by (nonlinear_arith)
                requires
                    c * s >= 2_000_000,
                    UNIT == 1000,
            ;
        }
    }
}

/// Round-trip law: packing a color to its 24-bit form and unpacking it
/// again yields the same color.
pub proof fn lemma_hex_round_trip(c: Color)
    ensures
        spec_from_hex(spec_to_hex(c)) == c,
{
    let r = c.r;
    let g = c.g;
    let b = c.b;
    assert(((((((r as u32) << 16) | ((g as u32) << 8) | (b as u32)) >> 16) & 0xFF) as u8) == r)
        by (bit_vector);
    assert(((((((r as u32) << 16) | ((g as u32) << 8) | (b as u32)) >> 8) & 0xFF) as u8) == g)
        by (bit_vector);
    assert((((((r as u32) << 16) | ((g as u32) << 8) | (b as u32)) & 0xFF) as u8) == b)
        by (bit_vector);
}

/// Endpoint law of interpolation: a factor of zero returns the first color
/// and a factor of one (1000 thousandths) returns the second, exactly.
pub proof fn lemma_lerp_endpoints(a: Color, b: Color)
    ensures
        spec_lerp(a, b, 0) == a,
        spec_lerp(a, b, UNIT as int) == b,
{
    let u = UNIT as int;
    assert((a.r as int * u + (b.r as int - a.r as int) * 0 + u / 2) / u == a.r as int)
        by (nonlinear_arith)
        requires
            u == 1000,
            0 <= a.r as int <= 255,
    ;
    assert((a.g as int * u + (b.g as int - a.g as int) * 0 + u / 2) / u == a.g as int)
        by (nonlinear_arith)
        requires
            u == 1000,
            0 <= a.g as int <= 255,
    ;
    assert((a.b as int * u + (b.b as int - a.b as int) * 0 + u / 2) / u == a.b as int)
        by (nonlinear_arith)
        requires
            u == 1000,
            0 <= a.b as int <= 255,
    ;
    assert((a.r as int * u + (b.r as int - a.r as int) * u + u / 2) / u == b.r as int)
        by (nonlinear_arith)
        requires
            u == 1000,
            0 <= a.r as int <= 255,
            0 <= b.r as int <= 255,
    ;
    assert((a.g as int * u + (b.g as int - a.g as int) * u + u / 2) / u == b.g as int)
        by (nonlinear_arith)
        requires
            u == 1000,
            0 <= a.g as int <= 255,
            0 <= b.g as int <= 255,
    ;
    assert((a.b as int * u + (b.b as int - a.b as int) * u + u / 2) / u == b.b as int)
        by (nonlinear_arith)
        requires
            u == 1000,
            0 <= a.b as int <= 255,
            0 <= b.b as int <= 255,
    ;
}

/// Every channel an operator computes lies in [0, 255] before it is stored,
/// for all inputs: the stored bytes are the computed values, never a
/// wrapped or truncated stand-in.
pub proof fn lemma_operators_stay_in_range(x: Color, y: Color, t: int)
    ensures
        0 <= x.r as int + y.r as int ==> clamp_channel(x.r as int + y.r as int) <= 255,
        0 <= x.r as int * y.r as int / 255 <= 255,
        0 <= 255 - (255 - x.r as int) * (255 - y.r as int) / 255 <= 255,
        0 <= lerp_channel(x.r as int, y.r as int, clamp01(t)) <= 255,
{
    assert(x.r as int * y.r as int / 255 <= 255) by (nonlinear_arith)
        requires
            0 <= x.r as int <= 255,
            0 <= y.r as int <= 255,
    ;
    assert(0 <= (255 - x.r as int) * (255 - y.r as int) <= 255 * 255) by (nonlinear_arith)
        requires
            0 <= x.r as int <= 255,
            0 <= y.r as int <= 255,
    ;
    lemma_lerp_channel_in_range(x.r as int, y.r as int, clamp01(t));
}

} // verus!
