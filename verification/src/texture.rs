//! A decoded texture: a dense pixel grid with clamped nearest-pixel
//! sampling.
//!
//! Decoding an image file is an external collaborator's job; the library
//! receives the decoded pixels as plain values and owns the sampling rule.

use vstd::prelude::*;
use crate::color::Color;
use crate::fixed::clamp01;
use crate::framebuffer::{grid_idx, lemma_grid_index};

verus! {

/// A pixel grid with nearest-pixel sampling over clamped [0, 1]
/// coordinates.
#[derive(Debug)]
pub struct Texture {
    pub width: usize,
    pub height: usize,
    pub pixels: Vec<Color>,
}

impl Texture {
    /// The grid is nonempty, within the supported size, and dense.
    pub open spec fn wf(self) -> bool {
        1 <= self.width <= 100_000 && 1 <= self.height <= 100_000 && self.pixels@.len()
            == self.width * self.height
    }

    /// The row-major pixel picked by a clamped coordinate pair in
    /// thousandths: each axis scales to the last valid index, rounding to
    /// the nearest pixel.
    pub open spec fn spec_sample(self, u: int, v: int) -> Color {
        let uc = clamp01(u);
        let vc = clamp01(v);
        let xi = (uc * (self.width - 1) + 500) / 1000;
        let yi = (vc * (self.height - 1) + 500) / 1000;
        self.pixels@[grid_idx(self.width as int, xi, yi)]
    }

    /// Builds a texture from decoded pixels; the sizes must be nonzero,
    /// within the supported range, and match the pixel count.
    pub fn new(width: usize, height: usize, pixels: Vec<Color>) -> (t: Option<Texture>)
        ensures
            t is Some <==> (1 <= width <= 100_000 && 1 <= height <= 100_000 && pixels@.len()
                == width * height),
            t matches Some(tex) ==> tex == (Texture { width, height, pixels }) && tex.wf(),
    {
        if width >= 1 && width <= 100_000 && height >= 1 && height <= 100_000 {
            proof {
                assert(width * height <= 100_000 * 100_000) by (nonlinear_arith)
                    requires
                        width <= 100_000,
                        height <= 100_000,
                ;
                assert(width * height >= 1) by (nonlinear_arith)
                    requires
                        width >= 1,
                        height >= 1,
                ;
            }
            let n: u64 = (width as u64) * (height as u64);
            if pixels.len() as u64 == n {
                Some(Texture { width, height, pixels })
            } else {
                None
            }
        } else {
            None
        }
    }

    /// The pixel at a grid position.
    pub fn get_pixel(&self, x: usize, y: usize) -> (c: Color)
        requires
            self.wf(),
            x < self.width,
            y < self.height,
        ensures
            c == self.pixels@[grid_idx(self.width as int, x as int, y as int)],
    {
        proof {
            lemma_grid_index(self.width as int, self.height as int, x as int, y as int);
        }
        let n = self.pixels.len();
        self.pixels[y * self.width + x]
    }

    /// Samples the texture at a coordinate pair in thousandths of [0, 1]:
    /// out-of-range coordinates are clamped, and the nearest pixel is
    /// returned.
    pub fn sample(&self, u: i64, v: i64) -> (c: Color)
        requires
            self.wf(),
        ensures
            c == self.spec_sample(u as int, v as int),
    {
        let uc = crate::fixed::clamp_unit(u);
        let vc = crate::fixed::clamp_unit(v);
        let wm1: i64 = (self.width - 1) as i64;
        let hm1: i64 = (self.height - 1) as i64;
        proof {
            assert(uc * (wm1 as int) <= 1000 * (wm1 as int)) by (nonlinear_arith)
                requires
                    0 <= uc <= 1000,
                    wm1 >= 0,
            ;
            assert(0 <= uc * (wm1 as int)) by (nonlinear_arith)
                requires
                    0 <= uc,
                    wm1 >= 0,
            ;
            assert(vc * (hm1 as int) <= 1000 * (hm1 as int)) by (nonlinear_arith)
                requires
                    0 <= vc <= 1000,
                    hm1 >= 0,
            ;
            assert(0 <= vc * (hm1 as int)) by (nonlinear_arith)
                requires
                    0 <= vc,
                    hm1 >= 0,
            ;
        }
        let xi = crate::fixed::div_pos(uc * wm1 + 500, 1000);
        let yi = crate::fixed::div_pos(vc * hm1 + 500, 1000);
        proof {
            assert((uc * (wm1 as int) + 500) / 1000 < self.width) by (nonlinear_arith)
                requires
                    uc * (wm1 as int) + 500 < 1000 * (self.width as int),
                    0 <= uc * (wm1 as int) + 500,
            ;
            assert((vc * (hm1 as int) + 500) / 1000 < self.height) by (nonlinear_arith)
                requires
                    vc * (hm1 as int) + 500 < 1000 * (self.height as int),
                    0 <= vc * (hm1 as int) + 500,
            ;
            lemma_grid_index(self.width as int, self.height as int, xi as int, yi as int);
        }
        let n = self.pixels.len();
        self.pixels[(yi as usize) * self.width + (xi as usize)]
    }
}

} // verus!
