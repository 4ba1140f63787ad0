//! The frame buffer: a dense color grid with a parallel depth grid.
//!
//! A depth-tested write lands only where its depth is strictly smaller than
//! the stored depth, so the closest fragment wins whatever the draw order.
//! Overlay writes (single points, rectangles, lines) bypass the depth test
//! and leave the depth grid untouched.  Every write outside the grid is a
//! silent no-op.

use vstd::prelude::*;
use crate::color::{Color, spec_to_hex, spec_from_hex};
use crate::fixed::sabs;

verus! {

/// The points the line rule visits, one step at a time: the current point,
/// then, unless the target is reached, the point after one error-driven
/// step.  The step budget bounds the walk; the initial budget covers every
/// reachable pixel.
pub open spec fn line_points_rec(
    x0: int,
    y0: int,
    x1: int,
    y1: int,
    dx: int,
    dy: int,
    sx: int,
    sy: int,
    err: int,
    fuel: nat,
) -> Seq<(int, int)>
    decreases fuel,
{
    if fuel == 0 {
        Seq::empty()
    } else if x0 == x1 && y0 == y1 {
        Seq::empty().push((x0, y0))
    } else {
        let e2 = err;
        let err1 = if e2 > -dx {
            err - dy
        } else {
            err
        };
        let nx = if e2 > -dx {
            x0 + sx
        } else {
            x0
        };
        let err2 = if e2 < dy {
            err1 + dx
        } else {
            err1
        };
        let ny = if e2 < dy {
            y0 + sy
        } else {
            y0
        };
        Seq::empty().push((x0, y0)) + line_points_rec(
            nx,
            ny,
            x1,
            y1,
            dx,
            dy,
            sx,
            sy,
            err2,
            (fuel - 1) as nat,
        )
    }
}

/// The pixels of the line from one point to another, by the integer
/// error-accumulation rule.
pub open spec fn spec_line_points(x0: int, y0: int, x1: int, y1: int) -> Seq<(int, int)> {
    let dx = sabs(x1 - x0);
    let dy = sabs(y1 - y0);
    let sx: int = if x0 < x1 {
        1
    } else {
        -1
    };
    let sy: int = if y0 < y1 {
        1
    } else {
        -1
    };
    let err = if dx > dy {
        dx / 2
    } else {
        -(dy / 2)
    };
    line_points_rec(x0, y0, x1, y1, dx, dy, sx, sy, err, (dx + dy + 1) as nat)
}

/// Whether a pixel appears among a sequence of points.
pub open spec fn line_covers(pts: Seq<(int, int)>, gi: int, gj: int) -> bool {
    exists|k: int| 0 <= k < pts.len() && #[trigger] pts[k] == (gi, gj)
}

/// Appending a point to a walk extends its cover by exactly that point.
pub proof fn lemma_covers_push(pts: Seq<(int, int)>, p: (int, int), gi: int, gj: int)
    ensures
        line_covers(pts.push(p), gi, gj) <==> (line_covers(pts, gi, gj) || (p.0 == gi && p.1
            == gj)),
{
    if line_covers(pts.push(p), gi, gj) {
        let k = choose|k: int| 0 <= k < pts.push(p).len() && #[trigger] pts.push(p)[k] == (gi, gj);
        if k < pts.len() {
            assert(pts[k] == (gi, gj));
        } else {
            assert(pts.push(p)[pts.len() as int] == p);
        }
    }
    if line_covers(pts, gi, gj) {
        let k = choose|k: int| 0 <= k < pts.len() && #[trigger] pts[k] == (gi, gj);
        assert(pts.push(p)[k] == (gi, gj));
    }
    if p.0 == gi && p.1 == gj {
        assert(pts.push(p)[pts.len() as int] == p);
    }
}

/// The depth stored in a cleared cell: farther than every representable
/// depth, so any finite write passes the first test.
pub const DEPTH_INF: i64 = i64::MAX;

/// The flat index of a grid cell.
pub open spec fn grid_idx(w: int, x: int, y: int) -> int {
    y * w + x
}

/// A cell index lies inside the flat grid.
pub proof fn lemma_grid_index(w: int, h: int, x: int, y: int)
    requires
        0 <= x < w,
        0 <= y < h,
    ensures
        0 <= y * w,
        0 <= grid_idx(w, x, y) < w * h,
{
    assert(0 <= y * w && 0 <= y * w + x < w * h) by (nonlinear_arith)
        requires
            0 <= x < w,
            0 <= y < h,
    ;
}

/// Distinct cells have distinct flat indices.
pub proof fn lemma_grid_unique(w: int, x1: int, y1: int, x2: int, y2: int)
    requires
        0 <= x1 < w,
        0 <= x2 < w,
        0 <= y1,
        0 <= y2,
        grid_idx(w, x1, y1) == grid_idx(w, x2, y2),
    ensures
        x1 == x2 && y1 == y2,
{
    assert(x1 == x2 && y1 == y2) by (nonlinear_arith)
        requires
            0 <= x1 < w,
            0 <= x2 < w,
            0 <= y1,
            0 <= y2,
            y1 * w + x1 == y2 * w + x2,
    ;
}

/// After a clear, every depth-tested write on the grid passes: the cleared
/// depth is farther than any representable depth, so the first fragment at
/// each pixel always lands.
pub proof fn lemma_clear_makes_writable(fb: Framebuffer, x: int, y: int, depth: int)
    requires
        fb.wf(),
        forall|i: int| 0 <= i < fb.zbuffer@.len() ==> fb.zbuffer@[i] == DEPTH_INF,
        fb.in_bounds(x, y),
        depth < DEPTH_INF,
    ensures
        fb.depth_passes(x, y, depth),
{
    lemma_grid_index(fb.width as int, fb.height as int, x, y);
}

/// The color grid, the depth grid and the configured background color.
#[derive(Debug)]
pub struct Framebuffer {
    pub width: usize,
    pub height: usize,
    pub buffer: Vec<Color>,
    pub zbuffer: Vec<i64>,
    pub background_color: Color,
}

impl Framebuffer {
    /// Both grids cover exactly width times height cells.
    pub open spec fn wf(self) -> bool {
        self.buffer@.len() == self.width * self.height && self.zbuffer@.len() == self.width
            * self.height
    }

    /// The flat index of a pixel.
    pub open spec fn idx(self, x: int, y: int) -> int {
        grid_idx(self.width as int, x, y)
    }

    /// Whether a pixel lies on the grid.
    pub open spec fn in_bounds(self, x: int, y: int) -> bool {
        0 <= x < self.width && 0 <= y < self.height
    }

    /// Whether a depth-tested write at this pixel passes: the pixel is on
    /// the grid and the new depth is strictly closer than the stored one.
    pub open spec fn depth_passes(self, x: int, y: int, depth: int) -> bool {
        self.in_bounds(x, y) && depth < self.zbuffer@[self.idx(x, y)]
    }

    /// The size and background are unchanged between two states.
    pub open spec fn same_shape(self, other: Framebuffer) -> bool {
        self.width == other.width && self.height == other.height && self.background_color
            == other.background_color
    }

    /// Allocates a buffer of the given size: every pixel black, every depth
    /// infinite, background black.
    pub fn new(width: usize, height: usize) -> (fb: Framebuffer)
        requires
            width * height <= usize::MAX,
        ensures
            fb.wf(),
            fb.width == width,
            fb.height == height,
            fb.background_color == (Color { r: 0, g: 0, b: 0 }),
            forall|i: int| 0 <= i < fb.buffer@.len() ==> fb.buffer@[i] == (Color { r: 0, g: 0, b: 0 }),
            forall|i: int| 0 <= i < fb.zbuffer@.len() ==> fb.zbuffer@[i] == DEPTH_INF,
    {
        let n = width * height;
        let mut buffer: Vec<Color> = Vec::new();
        let mut zbuffer: Vec<i64> = Vec::new();
        let mut i: usize = 0;
        while i < n
            invariant
                i <= n,
                buffer@.len() == i,
                zbuffer@.len() == i,
                forall|k: int| 0 <= k < i ==> buffer@[k] == (Color { r: 0, g: 0, b: 0 }),
                forall|k: int| 0 <= k < i ==> zbuffer@[k] == DEPTH_INF,
            decreases n - i,
        {
            buffer.push(Color { r: 0, g: 0, b: 0 });
            zbuffer.push(DEPTH_INF);
            i = i + 1;
        }
        Framebuffer { width, height, buffer, zbuffer, background_color: Color { r: 0, g: 0, b: 0 } }
    }

    /// A depth-tested write: when the pixel is on the grid and the depth is
    /// strictly closer than the stored one, both the color and the depth
    /// are committed; otherwise nothing changes.
    pub fn point(&mut self, x: usize, y: usize, depth: i64, color: Color)
        requires
            old(self).wf(),
        ensures
            final(self).wf(),
            old(self).same_shape(*final(self)),
            old(self).depth_passes(x as int, y as int, depth as int) ==> final(self).buffer@ == old(
                self,
            ).buffer@.update(old(self).idx(x as int, y as int), color) && final(self).zbuffer@
                == old(self).zbuffer@.update(old(self).idx(x as int, y as int), depth),
            !old(self).depth_passes(x as int, y as int, depth as int) ==> final(self).buffer@ == old(
                self,
            ).buffer@ && final(self).zbuffer@ == old(self).zbuffer@,
    {
        if x < self.width && y < self.height {
            proof {
                lemma_grid_index(self.width as int, self.height as int, x as int, y as int);
            }
            let n = self.buffer.len();
            let index = y * self.width + x;
            if depth < self.zbuffer[index] {
                self.buffer[index] = color;
                self.zbuffer[index] = depth;
            }
        }
    }

    /// An unconditional overlay write: no depth test, the depth grid is
    /// left as it is; off-grid writes do nothing.
    pub fn point_with_color(&mut self, x: usize, y: usize, color: Color)
        requires
            old(self).wf(),
        ensures
            final(self).wf(),
            old(self).same_shape(*final(self)),
            final(self).zbuffer@ == old(self).zbuffer@,
            old(self).in_bounds(x as int, y as int) ==> final(self).buffer@ == old(
                self,
            ).buffer@.update(old(self).idx(x as int, y as int), color),
            !old(self).in_bounds(x as int, y as int) ==> final(self).buffer@ == old(self).buffer@,
    {
        if x < self.width && y < self.height {
            proof {
                lemma_grid_index(self.width as int, self.height as int, x as int, y as int);
            }
            let n = self.buffer.len();
            let index = y * self.width + x;
            self.buffer[index] = color;
        }
    }

    /// Sets the background color that the next clear paints.
    pub fn set_background_color(&mut self, color: Color)
        ensures
            final(self).background_color == color,
            final(self).width == old(self).width,
            final(self).height == old(self).height,
            final(self).buffer@ == old(self).buffer@,
            final(self).zbuffer@ == old(self).zbuffer@,
    {
        self.background_color = color;
    }

    /// Resets every pixel to the background color and every depth to
    /// infinity.
    pub fn clear(&mut self)
        requires
            old(self).wf(),
        ensures
            final(self).wf(),
            old(self).same_shape(*final(self)),
            final(self).buffer@.len() == old(self).buffer@.len(),
            final(self).zbuffer@.len() == old(self).zbuffer@.len(),
            forall|i: int|
                0 <= i < final(self).buffer@.len() ==> final(self).buffer@[i] == old(
                    self,
                ).background_color,
            forall|i: int| 0 <= i < final(self).zbuffer@.len() ==> final(self).zbuffer@[i] == DEPTH_INF,
    {
        let bg = self.background_color;
        let n = self.buffer.len();
        let mut i: usize = 0;
        while i < n
            invariant
                i <= n,
                self.wf(),
                self.background_color == old(self).background_color,
                self.width == old(self).width,
                self.height == old(self).height,
                n == self.buffer@.len(),
                n == self.zbuffer@.len(),
                bg == old(self).background_color,
                forall|k: int| 0 <= k < i ==> self.buffer@[k] == bg,
                forall|k: int| 0 <= k < i ==> self.zbuffer@[k] == DEPTH_INF,
            decreases n - i,
        {
            self.buffer[i] = bg;
            self.zbuffer[i] = DEPTH_INF;
            i = i + 1;
        }
    }

    /// Whether the pixel holds pure white, the overlay color of orbit
    /// lines; off-grid pixels answer no.
    pub fn is_point_set(&self, x: usize, y: usize) -> (set: bool)
        requires
            self.wf(),
        ensures
            set == (self.in_bounds(x as int, y as int) && self.buffer@[self.idx(
                x as int,
                y as int,
            )] == spec_from_hex(0xFFFFFF)),
    {
        if x < self.width && y < self.height {
            proof {
                lemma_grid_index(self.width as int, self.height as int, x as int, y as int);
            }
            let n = self.buffer.len();
            let c = self.buffer[y * self.width + x];
            let w = Color::from_hex(0xFFFFFF);
            c.r == w.r && c.g == w.g && c.b == w.b
        } else {
            false
        }
    }

    /// The committed colors as one packed 24-bit value per pixel, row
    /// major, for presentation.
    pub fn to_u32_buffer(&self) -> (out: Vec<u32>)
        requires
            self.wf(),
        ensures
            out@.len() == self.buffer@.len(),
            forall|i: int| 0 <= i < out@.len() ==> out@[i] == spec_to_hex(self.buffer@[i]),
    {
        let n = self.buffer.len();
        let mut out: Vec<u32> = Vec::new();
        let mut i: usize = 0;
        while i < n
            invariant
                i <= n,
                n == self.buffer@.len(),
                out@.len() == i,
                forall|k: int| 0 <= k < i ==> out@[k] == spec_to_hex(self.buffer@[k]),
            decreases n - i,
        {
            let c = self.buffer[i];
            out.push(c.to_hex());
            i = i + 1;
        }
        out
    }

    /// Fills an axis-aligned block with one color, unconditionally: no
    /// depth test, used for flat overlay fills; parts outside the grid are
    /// skipped.
    pub fn draw_rectangle(&mut self, x: usize, y: usize, rect_width: usize, rect_height: usize, color: Color)
        requires
            old(self).wf(),
            x + rect_width <= usize::MAX,
            y + rect_height <= usize::MAX,
        ensures
            final(self).wf(),
            old(self).same_shape(*final(self)),
            final(self).zbuffer@ == old(self).zbuffer@,
            final(self).buffer@.len() == old(self).buffer@.len(),
            forall|gi: int, gj: int|
                old(self).in_bounds(gi, gj) && x <= gi < x + rect_width && y <= gj < y + rect_height
                    ==> final(self).buffer@[old(self).idx(gi, gj)] == color,
            forall|gi: int, gj: int|
                old(self).in_bounds(gi, gj) && !(x <= gi < x + rect_width && y <= gj < y
                    + rect_height) ==> final(self).buffer@[old(self).idx(gi, gj)] == old(
                    self,
                ).buffer@[old(self).idx(gi, gj)],
    {
        let mut i: usize = 0;
        while i < rect_width
            invariant
                i <= rect_width,
                x + rect_width <= usize::MAX,
                y + rect_height <= usize::MAX,
                self.wf(),
                old(self).same_shape(*self),
                self.zbuffer@ == old(self).zbuffer@,
                self.buffer@.len() == old(self).buffer@.len(),
                forall|gi: int, gj: int|
                    old(self).in_bounds(gi, gj) && x <= gi < x + i && y <= gj < y + rect_height
                        ==> self.buffer@[old(self).idx(gi, gj)] == color,
                forall|gi: int, gj: int|
                    old(self).in_bounds(gi, gj) && !(x <= gi < x + i && y <= gj < y + rect_height)
                        ==> self.buffer@[old(self).idx(gi, gj)] == old(self).buffer@[old(self).idx(
                        gi,
                        gj,
                    )],
            decreases rect_width - i,
        {
            let mut j: usize = 0;
            while j < rect_height
                invariant
                    i < rect_width,
                    j <= rect_height,
                    x + rect_width <= usize::MAX,
                    y + rect_height <= usize::MAX,
                    self.wf(),
                    old(self).same_shape(*self),
                    self.zbuffer@ == old(self).zbuffer@,
                    self.buffer@.len() == old(self).buffer@.len(),
                    forall|gi: int, gj: int|
                        old(self).in_bounds(gi, gj) && ((x <= gi < x + i && y <= gj < y
                            + rect_height) || (gi == x + i && y <= gj < y + j)) ==> self.buffer@[old(
                            self,
                        ).idx(gi, gj)] == color,
                    forall|gi: int, gj: int|
                        old(self).in_bounds(gi, gj) && !((x <= gi < x + i && y <= gj < y
                            + rect_height) || (gi == x + i && y <= gj < y + j)) ==> self.buffer@[old(
                            self,
                        ).idx(gi, gj)] == old(self).buffer@[old(self).idx(gi, gj)],
                decreases rect_height - j,
            {
                let ghost prev = *self;
                self.point_with_color(x + i, y + j, color);
                proof {
                    let px = x as int + i as int;
                    let py = y as int + j as int;
                    let w = old(self).width as int;
                    let h = old(self).height as int;
                    if prev.in_bounds(px, py) {
                        lemma_grid_index(w, h, px, py);
                    }
                    assert forall|gi: int, gj: int|
                        old(self).in_bounds(gi, gj) && ((x <= gi < x + i && y <= gj < y
                            + rect_height) || (gi == px && y <= gj < py + 1)) implies self.buffer@[old(
                        self,
                    ).idx(gi, gj)] == color by {
                        lemma_grid_index(w, h, gi, gj);
                        if !(gi == px && gj == py) && prev.in_bounds(px, py) {
                            if old(self).idx(gi, gj) == old(self).idx(px, py) {
                                lemma_grid_unique(w, gi, gj, px, py);
                            }
                        }
                    }
                    assert forall|gi: int, gj: int|
                        old(self).in_bounds(gi, gj) && !((x <= gi < x + i && y <= gj < y
                            + rect_height) || (gi == px && y <= gj < py + 1)) implies self.buffer@[old(
                        self,
                    ).idx(gi, gj)] == old(self).buffer@[old(self).idx(gi, gj)] by {
                        lemma_grid_index(w, h, gi, gj);
                        if prev.in_bounds(px, py) {
                            if old(self).idx(gi, gj) == old(self).idx(px, py) {
                                lemma_grid_unique(w, gi, gj, px, py);
                            }
                        }
                    }
                }
                j = j + 1;
            }
            i = i + 1;
        }
    }

    /// Draws the integer error-accumulation line from one point to the
    /// other as an overlay: every visited pixel inside the grid takes the
    /// unpacked color, the depth grid is untouched, and points off the grid
    /// are clipped.  The walk carries a step budget that covers every
    /// reachable pixel, so it always ends.
    pub fn draw_line(&mut self, x0: usize, y0: usize, x1: usize, y1: usize, color: u32)
        requires
            old(self).wf(),
            x0 <= 1_000_000,
            y0 <= 1_000_000,
            x1 <= 1_000_000,
            y1 <= 1_000_000,
        ensures
            final(self).wf(),
            old(self).same_shape(*final(self)),
            final(self).zbuffer@ == old(self).zbuffer@,
            final(self).buffer@.len() == old(self).buffer@.len(),
            forall|gi: int, gj: int|
                old(self).in_bounds(gi, gj) && line_covers(
                    spec_line_points(x0 as int, y0 as int, x1 as int, y1 as int),
                    gi,
                    gj,
                ) ==> final(self).buffer@[old(self).idx(gi, gj)] == spec_from_hex(color),
            forall|gi: int, gj: int|
                old(self).in_bounds(gi, gj) && !line_covers(
                    spec_line_points(x0 as int, y0 as int, x1 as int, y1 as int),
                    gi,
                    gj,
                ) ==> final(self).buffer@[old(self).idx(gi, gj)] == old(self).buffer@[old(self).idx(
                    gi,
                    gj,
                )],
    {
        let c = Color::from_hex(color);
        let mut cx: i64 = x0 as i64;
        let mut cy: i64 = y0 as i64;
        let tx: i64 = x1 as i64;
        let ty: i64 = y1 as i64;
        let dx: i64 = if tx >= cx {
            tx - cx
        } else {
            cx - tx
        };
        let dy: i64 = if ty >= cy {
            ty - cy
        } else {
            cy - ty
        };
        let sx: i64 = if cx < tx {
            1
        } else {
            -1
        };
        let sy: i64 = if cy < ty {
            1
        } else {
            -1
        };
        let mut err: i64 = if dx > dy {
            (dx as u64 / 2) as i64
        } else {
            -((dy as u64 / 2) as i64)
        };
        let mut fuel: i64 = dx + dy + 1;
        let ghost total = spec_line_points(x0 as int, y0 as int, x1 as int, y1 as int);
        let ghost mut processed: Seq<(int, int)> = Seq::empty();
        proof {
            assert(processed + line_points_rec(cx as int, cy as int, tx as int, ty as int,
                dx as int, dy as int, sx as int, sy as int, err as int, fuel as nat) =~= total);
        }
        while fuel > 0
            invariant_except_break
                self.wf(),
                old(self).same_shape(*self),
                self.zbuffer@ == old(self).zbuffer@,
                self.buffer@.len() == old(self).buffer@.len(),
                0 <= dx <= 1_000_000,
                0 <= dy <= 1_000_000,
                sx == 1 || sx == -1,
                sy == 1 || sy == -1,
                tx == x1 as int,
                ty == y1 as int,
                0 <= fuel <= dx + dy + 1,
                sabs(cx as int) <= 1_000_000 + (dx + dy + 1 - fuel),
                sabs(cy as int) <= 1_000_000 + (dx + dy + 1 - fuel),
                sabs(err as int) <= 1_000_000 + 2_000_000 * (dx + dy + 1 - fuel),
                total == processed + line_points_rec(cx as int, cy as int, tx as int, ty as int,
                    dx as int, dy as int, sx as int, sy as int, err as int, fuel as nat),
                forall|gi: int, gj: int|
                    old(self).in_bounds(gi, gj) && line_covers(processed, gi, gj)
                        ==> self.buffer@[old(self).idx(gi, gj)] == c,
                forall|gi: int, gj: int|
                    old(self).in_bounds(gi, gj) && !line_covers(processed, gi, gj)
                        ==> self.buffer@[old(self).idx(gi, gj)] == old(self).buffer@[old(self).idx(
                        gi,
                        gj,
                    )],
                c == spec_from_hex(color),
            ensures
                self.wf(),
                old(self).same_shape(*self),
                self.zbuffer@ == old(self).zbuffer@,
                self.buffer@.len() == old(self).buffer@.len(),
                total == processed,
                forall|gi: int, gj: int|
                    old(self).in_bounds(gi, gj) && line_covers(processed, gi, gj)
                        ==> self.buffer@[old(self).idx(gi, gj)] == c,
                forall|gi: int, gj: int|
                    old(self).in_bounds(gi, gj) && !line_covers(processed, gi, gj)
                        ==> self.buffer@[old(self).idx(gi, gj)] == old(self).buffer@[old(self).idx(
                        gi,
                        gj,
                    )],
                c == spec_from_hex(color),
            decreases fuel,
        {
            let ghost prev = *self;
            if cx >= 0 && cy >= 0 && (cx as usize) < self.width && (cy as usize) < self.height {
                self.point_with_color(cx as usize, cy as usize, c);
            }
            proof {
                let p = (cx as int, cy as int);
                let w = old(self).width as int;
                let h = old(self).height as int;
                if prev.in_bounds(p.0, p.1) {
                    lemma_grid_index(w, h, p.0, p.1);
                }
                assert forall|gi: int, gj: int|
                    old(self).in_bounds(gi, gj) && line_covers(processed.push(p), gi, gj)
                    implies self.buffer@[old(self).idx(gi, gj)] == c by {
                    lemma_covers_push(processed, p, gi, gj);
                    lemma_grid_index(w, h, gi, gj);
                    if !(gi == p.0 && gj == p.1) && prev.in_bounds(p.0, p.1) {
                        if old(self).idx(gi, gj) == old(self).idx(p.0, p.1) {
                            lemma_grid_unique(w, gi, gj, p.0, p.1);
                        }
                    }
                }
                assert forall|gi: int, gj: int|
                    old(self).in_bounds(gi, gj) && !line_covers(processed.push(p), gi, gj)
                    implies self.buffer@[old(self).idx(gi, gj)] == old(self).buffer@[old(self).idx(
                    gi,
                    gj,
                )] by {
                    lemma_covers_push(processed, p, gi, gj);
                    lemma_grid_index(w, h, gi, gj);
                    if prev.in_bounds(p.0, p.1) {
                        if old(self).idx(gi, gj) == old(self).idx(p.0, p.1) {
                            lemma_grid_unique(w, gi, gj, p.0, p.1);
                        }
                    }
                }
                processed = processed.push(p);
            }
            if cx == tx && cy == ty {
                proof {
                    assert(total =~= processed);
                }
                break ;
            }
            proof {
                let rest = line_points_rec(cx as int, cy as int, tx as int, ty as int, dx as int,
                    dy as int, sx as int, sy as int, err as int, fuel as nat);
                let e2 = err as int;
                let err1 = if e2 > -dx {
                    err - dy
                } else {
                    err as int
                };
                let nx = if e2 > -dx {
                    cx + sx
                } else {
                    cx as int
                };
                let err2 = if e2 < dy {
                    err1 + dx
                } else {
                    err1
                };
                let ny = if e2 < dy {
                    cy + sy
                } else {
                    cy as int
                };
                let tail = line_points_rec(nx, ny, tx as int, ty as int, dx as int, dy as int,
                    sx as int, sy as int, err2, (fuel - 1) as nat);
                assert(rest =~= Seq::empty().push((cx as int, cy as int)) + tail);
                assert(processed + tail =~= total);
            }
            let e2 = err;
            if e2 > -dx {
                err = err - dy;
                cx = cx + sx;
            }
            if e2 < dy {
                err = err + dx;
                cy = cy + sy;
            }
            fuel = fuel - 1;
        }
    }

    /// Fills the whole buffer from a texture, mapping each pixel to the
    /// texture coordinate it covers: a full-screen backdrop with no depth
    /// test, the depth grid untouched.
    pub fn draw_skybox(&mut self, texture: &crate::texture::Texture)
        requires
            old(self).wf(),
            texture.wf(),
            old(self).width <= 100_000,
            old(self).height <= 100_000,
        ensures
            final(self).wf(),
            old(self).same_shape(*final(self)),
            final(self).zbuffer@ == old(self).zbuffer@,
            final(self).buffer@.len() == old(self).buffer@.len(),
            forall|gi: int, gj: int|
                old(self).in_bounds(gi, gj) ==> final(self).buffer@[old(self).idx(gi, gj)]
                    == texture.spec_sample(
                    gi * 1000 / (old(self).width as int),
                    gj * 1000 / (old(self).height as int),
                ),
    {
        let w = self.width;
        let h = self.height;
        let mut y: usize = 0;
        while y < h
            invariant
                y <= h,
                w == self.width,
                h == self.height,
                w <= 100_000,
                h <= 100_000,
                texture.wf(),
                self.wf(),
                old(self).same_shape(*self),
                self.zbuffer@ == old(self).zbuffer@,
                self.buffer@.len() == old(self).buffer@.len(),
                forall|gi: int, gj: int|
                    old(self).in_bounds(gi, gj) && gj < y ==> self.buffer@[old(self).idx(gi, gj)]
                        == texture.spec_sample(gi * 1000 / (w as int), gj * 1000 / (h as int)),
                forall|gi: int, gj: int|
                    old(self).in_bounds(gi, gj) && gj >= y ==> self.buffer@[old(self).idx(gi, gj)]
                        == old(self).buffer@[old(self).idx(gi, gj)],
            decreases h - y,
        {
            let mut x: usize = 0;
            while x < w
                invariant
                    x <= w,
                    y < h,
                    w == self.width,
                    h == self.height,
                    w <= 100_000,
                    h <= 100_000,
                    texture.wf(),
                    self.wf(),
                    old(self).same_shape(*self),
                    self.zbuffer@ == old(self).zbuffer@,
                    self.buffer@.len() == old(self).buffer@.len(),
                    forall|gi: int, gj: int|
                        old(self).in_bounds(gi, gj) && (gj < y || (gj == y && gi < x))
                            ==> self.buffer@[old(self).idx(gi, gj)] == texture.spec_sample(
                            gi * 1000 / (w as int),
                            gj * 1000 / (h as int),
                        ),
                    forall|gi: int, gj: int|
                        old(self).in_bounds(gi, gj) && !(gj < y || (gj == y && gi < x))
                            ==> self.buffer@[old(self).idx(gi, gj)] == old(self).buffer@[old(
                            self,
                        ).idx(gi, gj)],
                decreases w - x,
            {
                let u: i64 = crate::fixed::div_pos((x as i64) * 1000, w as i64);
                let v: i64 = crate::fixed::div_pos((y as i64) * 1000, h as i64);
                let color = texture.sample(u, v);
                let ghost prev = *self;
                self.point_with_color(x, y, color);
                proof {
                    let wi = old(self).width as int;
                    let hi = old(self).height as int;
                    lemma_grid_index(wi, hi, x as int, y as int);
                    assert forall|gi: int, gj: int|
                        old(self).in_bounds(gi, gj) && (gj < y || (gj == y && gi < x + 1))
                        implies self.buffer@[old(self).idx(gi, gj)] == texture.spec_sample(
                        gi * 1000 / (w as int),
                        gj * 1000 / (h as int),
                    ) by {
                        lemma_grid_index(wi, hi, gi, gj);
                        if !(gi == x && gj == y) {
                            if old(self).idx(gi, gj) == old(self).idx(x as int, y as int) {
                                lemma_grid_unique(wi, gi, gj, x as int, y as int);
                            }
                        }
                    }
                    assert forall|gi: int, gj: int|
                        old(self).in_bounds(gi, gj) && !(gj < y || (gj == y && gi < x + 1))
                        implies self.buffer@[old(self).idx(gi, gj)] == old(self).buffer@[old(
                        self,
                    ).idx(gi, gj)] by {
                        lemma_grid_index(wi, hi, gi, gj);
                        if old(self).idx(gi, gj) == old(self).idx(x as int, y as int) {
                            lemma_grid_unique(wi, gi, gj, x as int, y as int);
                        }
                    }
                }
                x = x + 1;
            }
            y = y + 1;
        }
    }
}

} // verus!
