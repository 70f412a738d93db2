//! A mutable 2D buffer of pixels with point, line, and sampling operations.

use vstd::prelude::*;

verus! {

/// A mutable buffer for storing and editing pixel data, row-major with the
/// origin in the corner that `(0, 0)` addresses.
pub struct Image<Pix> {
    pub pixels: Vec<Pix>,
    pub width: usize,
    pub height: usize,
}

/// Row-major addressing stays inside the backing buffer.
pub proof fn lemma_row_major(x: int, y: int, w: int, h: int)
    by (nonlinear_arith)
    requires
        0 <= x < w,
        0 <= y < h,
    ensures
        0 <= y * w + x < h * w,
{
}

impl<Pix: Copy> Image<Pix> {
    /// The backing buffer holds exactly one pixel per coordinate pair.
    pub open spec fn wf(self) -> bool {
        self.pixels@.len() == self.width * self.height
    }

    /// The pixel stored at `(x, y)`.
    pub open spec fn pix(self, x: int, y: int) -> Pix {
        self.pixels@[y * self.width + x]
    }

    /// Creates a new `width` by `height` `Image` where every pixel has the
    /// value `fill`.
    pub fn filled(width: usize, height: usize, fill: Pix) -> (img: Self)
        requires
            width * height <= usize::MAX,
        ensures
            img.wf(),
            img.width == width,
            img.height == height,
            forall|x: int, y: int|
                0 <= x < width && 0 <= y < height ==> img.pix(x, y) == fill,
    {
        let n: usize = width * height;
        let mut pixels: Vec<Pix> = Vec::new();
        let mut i: usize = 0;
        while i < n
            invariant
                i <= n,
                pixels@.len() == i,
                forall|k: int| 0 <= k < i ==> pixels@[k] == fill,
            decreases n - i,
        {
            pixels.push(fill);
            i = i + 1;
        }
        let img = Image { pixels, width, height };
        proof {
            assert forall|x: int, y: int|
                0 <= x < width && 0 <= y < height implies img.pix(x, y) == fill by {
                lemma_row_major(x, y, width as int, height as int);
                let k = y * width + x;
                assert(n == width * height);
                assert(k < height * width);
                assert(height * width == width * height) by (nonlinear_arith);
                assert(0 <= k < n);
                assert(img.pixels@[k] == fill);
            };
        }
        img
    }

    /// Create a new image containing the data in `pixels`, listed row by row.
    pub fn with_pixels(width: usize, height: usize, pixels: &[Pix]) -> (img: Self)
        requires
            pixels@.len() == width * height,
        ensures
            img.wf(),
            img.width == width,
            img.height == height,
            forall|x: int, y: int|
                0 <= x < width && 0 <= y < height ==> img.pix(x, y) == pixels@[y * width + x],
    {
        let v = vstd::slice::slice_to_vec(pixels);
        Image { pixels: v, width, height }
    }

    /// Reads the pixel at `(x, y)`.
    pub fn get(&self, x: usize, y: usize) -> (p: Pix)
        requires
            self.wf(),
            x < self.width,
            y < self.height,
        ensures
            p == self.pix(x as int, y as int),
    {
        let n: usize = self.pixels.len();
        proof {
            lemma_row_major(x as int, y as int, self.width as int, self.height as int);
        }
        self.pixels[y * self.width + x]
    }

    /// Overwrites the pixel at `(x, y)`.
    pub fn set(&mut self, x: usize, y: usize, p: Pix)
        requires
            old(self).wf(),
            x < old(self).width,
            y < old(self).height,
        ensures
            final(self).wf(),
            final(self).width == old(self).width,
            final(self).height == old(self).height,
            final(self).pix(x as int, y as int) == p,
            forall|i: int, j: int|
                0 <= i < final(self).width && 0 <= j < final(self).height && !(i == x && j == y)
                    ==> final(self).pix(i, j) == old(self).pix(i, j),
    {
        let n: usize = self.pixels.len();
        proof {
            lemma_row_major(x as int, y as int, self.width as int, self.height as int);
        }
        let idx: usize = y * self.width + x;
        self.pixels.set(idx, p);
        proof {
            assert forall|i: int, j: int|
                0 <= i < self.width && 0 <= j < self.height && !(i == x as int && j == y as int)
                    implies self.pix(i, j) == old(self).pix(i, j) by {
                lemma_row_major(x as int, y as int, self.width as int, self.height as int);
                lemma_row_major(i, j, self.width as int, self.height as int);
                lemma_distinct_cells(i, j, x as int, y as int, self.width as int);
            };
        }
    }
}

/// Largest magnitude a line endpoint coordinate may have; keeps the error
/// accumulator of the line rasterizer inside the machine integer range.
pub const COORD_LIMIT: isize = 0x0fff_ffff;

/// The absolute value of `a`.
pub open spec fn spec_abs(a: int) -> int {
    if a < 0 {
        -a
    } else {
        a
    }
}

/// The `(y, error)` pair that Bresenham's algorithm holds on entering column
/// `x`, for a run from `(x0, y0)` to `(x1, y1)` with `x0 <= x1` and a slope of
/// magnitude at most one.
pub open spec fn bres_state(x0: int, y0: int, x1: int, y1: int, x: int) -> (int, int)
    decreases x - x0,
{
    if x <= x0 {
        (y0, 0)
    } else {
        let prev = bres_state(x0, y0, x1, y1, x - 1);
        let e = prev.1 + 2 * spec_abs(y1 - y0);
        if e > x1 - x0 {
            ((prev.0 + if y1 > y0 { 1int } else { -1int }), e - 2 * (x1 - x0))
        } else {
            (prev.0, e)
        }
    }
}

/// The row that Bresenham's algorithm plots in column `x`.
pub open spec fn bres_y(x0: int, y0: int, x1: int, y1: int, x: int) -> int {
    bres_state(x0, y0, x1, y1, x).0
}

/// Whether the canonical (shallow, left-to-right) Bresenham run from
/// `(x0, y0)` to `(x1, y1)` plots the point `(px, py)`.
pub open spec fn canon_hits(x0: int, y0: int, x1: int, y1: int, px: int, py: int) -> bool {
    x0 <= px <= x1 && py == bres_y(x0, y0, x1, y1, px)
}

/// Whether the line from `(x0, y0)` to `(x1, y1)` plots the point
/// `(px, py)`: steep lines run transposed, right-to-left lines run with the
/// endpoints exchanged.
pub open spec fn line_hits(x0: int, y0: int, x1: int, y1: int, px: int, py: int) -> bool {
    if spec_abs(x0 - x1) >= spec_abs(y0 - y1) {
        if x0 <= x1 {
            canon_hits(x0, y0, x1, y1, px, py)
        } else {
            canon_hits(x1, y1, x0, y0, px, py)
        }
    } else {
        if y0 <= y1 {
            canon_hits(y0, x0, y1, x1, py, px)
        } else {
            canon_hits(y1, x1, y0, x0, py, px)
        }
    }
}

impl<Pix: Copy> Image<Pix> {
    /// Draw a line into the image using Bresenham's line drawing algorithm.
    ///
    /// All the coordinates are pixel coordinates; points of the line that
    /// fall outside the image are skipped silently.
    pub fn line(&mut self, x0: isize, y0: isize, x1: isize, y1: isize, color: Pix)
        requires
            old(self).wf(),
            -COORD_LIMIT <= x0 <= COORD_LIMIT,
            -COORD_LIMIT <= y0 <= COORD_LIMIT,
            -COORD_LIMIT <= x1 <= COORD_LIMIT,
            -COORD_LIMIT <= y1 <= COORD_LIMIT,
        ensures
            final(self).wf(),
            final(self).width == old(self).width,
            final(self).height == old(self).height,
            forall|px: int, py: int|
                0 <= px < final(self).width && 0 <= py < final(self).height
                    ==> final(self).pix(px, py) == (if line_hits(
                    x0 as int,
                    y0 as int,
                    x1 as int,
                    y1 as int,
                    px,
                    py,
                ) {
                    color
                } else {
                    old(self).pix(px, py)
                }),
    {
        let steep = abs_diff(x0, x1) < abs_diff(y0, y1);
        if !steep {
            if x0 <= x1 {
                self.line_canon(x0, y0, x1, y1, color, false);
            } else {
                self.line_canon(x1, y1, x0, y0, color, false);
            }
        } else {
            if y0 <= y1 {
                self.line_canon(y0, x0, y1, x1, color, true);
            } else {
                self.line_canon(y1, x1, y0, x0, color, true);
            }
        }
    }

    /// The canonical Bresenham run: left to right over a shallow slope.
    /// With `steep` set the plotted coordinates are transposed.
    fn line_canon(&mut self, x0: isize, y0: isize, x1: isize, y1: isize, color: Pix, steep: bool)
        requires
            old(self).wf(),
            -COORD_LIMIT <= x0 <= COORD_LIMIT,
            -COORD_LIMIT <= y0 <= COORD_LIMIT,
            -COORD_LIMIT <= x1 <= COORD_LIMIT,
            -COORD_LIMIT <= y1 <= COORD_LIMIT,
            x0 <= x1,
            spec_abs(y1 - y0) <= x1 - x0,
        ensures
            final(self).wf(),
            final(self).width == old(self).width,
            final(self).height == old(self).height,
            forall|px: int, py: int|
                0 <= px < final(self).width && 0 <= py < final(self).height
                    ==> final(self).pix(px, py) == (if (if steep {
                    canon_hits(x0 as int, y0 as int, x1 as int, y1 as int, py, px)
                } else {
                    canon_hits(x0 as int, y0 as int, x1 as int, y1 as int, px, py)
                }) {
                    color
                } else {
                    old(self).pix(px, py)
                }),
    {
        let dx: isize = x1 - x0;
        let derror: isize = 2 * abs_diff(y1, y0);
        let yoff: isize = if y1 > y0 {
            1
        } else {
            -1
        };
        let mut error: isize = 0;
        let mut y: isize = y0;
        let mut x: isize = x0;
        while x <= x1
            invariant
                self.wf(),
                self.width == old(self).width,
                self.height == old(self).height,
                x0 <= x <= x1 + 1,
                dx == x1 - x0,
                derror == 2 * spec_abs(y1 as int - y0 as int),
                yoff == (if y1 > y0 { 1int } else { -1int }),
                -COORD_LIMIT <= y0 <= COORD_LIMIT,
                -COORD_LIMIT <= y1 <= COORD_LIMIT,
                x1 <= COORD_LIMIT,
                -COORD_LIMIT <= x0,
                spec_abs(y1 as int - y0 as int) <= dx,
                (y as int, error as int) == bres_state(x0 as int, y0 as int, x1 as int, y1 as int, x as int),
                y0 - (x - x0) <= y <= y0 + (x - x0),
                -dx <= error <= dx,
                forall|px: int, py: int|
                    0 <= px < self.width && 0 <= py < self.height
                        ==> self.pix(px, py) == (if (if steep {
                        x0 <= py < x && px == bres_y(x0 as int, y0 as int, x1 as int, y1 as int, py)
                    } else {
                        x0 <= px < x && py == bres_y(x0 as int, y0 as int, x1 as int, y1 as int, px)
                    }) {
                        color
                    } else {
                        old(self).pix(px, py)
                    }),
            decreases x1 + 1 - x,
        {
            let ghost pre = *self;
            let (plot_x, plot_y) = if steep {
                (y, x)
            } else {
                (x, y)
            };
            if 0 <= plot_x && 0 <= plot_y && (plot_x as usize) < self.width && (plot_y as usize)
                < self.height {
                self.set(plot_x as usize, plot_y as usize, color);
            }
            proof {
                assert(bres_y(x0 as int, y0 as int, x1 as int, y1 as int, x as int) == y as int);
                assert forall|px: int, py: int|
                    0 <= px < self.width && 0 <= py < self.height
                        implies self.pix(px, py) == (if (if steep {
                        x0 <= py < x + 1 && px == bres_y(x0 as int, y0 as int, x1 as int, y1 as int, py)
                    } else {
                        x0 <= px < x + 1 && py == bres_y(x0 as int, y0 as int, x1 as int, y1 as int, px)
                    }) {
                        color
                    } else {
                        old(self).pix(px, py)
                    }) by {
                    assert(pre.pix(px, py) == (if (if steep {
                        x0 <= py < x && px == bres_y(x0 as int, y0 as int, x1 as int, y1 as int, py)
                    } else {
                        x0 <= px < x && py == bres_y(x0 as int, y0 as int, x1 as int, y1 as int, px)
                    }) {
                        color
                    } else {
                        old(self).pix(px, py)
                    }));
                };
            }
            error = error + derror;
            if error > dx {
                y = y + yoff;
                error = error - 2 * dx;
            }
            x = x + 1;
            proof {
                assert(bres_state(x0 as int, y0 as int, x1 as int, y1 as int, x as int)
                    == (y as int, error as int));
            }
        }
    }
}

/// `|a - b|`, computed without overflow for bounded inputs.
fn abs_diff(a: isize, b: isize) -> (r: isize)
    requires
        -COORD_LIMIT <= a <= COORD_LIMIT,
        -COORD_LIMIT <= b <= COORD_LIMIT,
    ensures
        r == spec_abs(a as int - b as int),
{
    if a < b {
        b - a
    } else {
        a - b
    }
}


/// A fixed-point blend of two channel bytes: `a` weighted by `t` and `b`
/// by the rest, in fx units.
pub open spec fn spec_mix_ch(a: int, b: int, t: int) -> int {
    (a * t + b * (65536 - t)) / 65536
}

/// A texture coordinate clamped into `[0, FX_ONE]`.
pub open spec fn spec_sat(u: int) -> int {
    if u < 0 {
        0
    } else if u > 65536 {
        65536
    } else {
        u
    }
}

/// What sampling at `(u, v)` in fx units must yield: coordinates are
/// clamped, `v` runs bottom-up, the four nearest texels are fetched with
/// clamped indices, and each channel is blended bilinearly.
pub open spec fn spec_sample(img: Image<crate::color::Color>, u: int, v: int) -> crate::color::Color {
    let w = img.width as int;
    let h = img.height as int;
    let us = spec_sat(u) * (w - 1);
    let vs = (65536 - spec_sat(v)) * (h - 1);
    let x0 = us / 65536;
    let x1 = (us + 65535) / 65536;
    let xf = us % 65536;
    let y0 = vs / 65536;
    let y1 = (vs + 65535) / 65536;
    let yf = vs % 65536;
    let p00 = img.pix(x0, y0);
    let p10 = img.pix(x1, y0);
    let p01 = img.pix(x0, y1);
    let p11 = img.pix(x1, y1);
    crate::color::Color {
        r: spec_mix_ch(
            spec_mix_ch(p00.r as int, p10.r as int, xf),
            spec_mix_ch(p01.r as int, p11.r as int, xf),
            yf,
        ) as u8,
        g: spec_mix_ch(
            spec_mix_ch(p00.g as int, p10.g as int, xf),
            spec_mix_ch(p01.g as int, p11.g as int, xf),
            yf,
        ) as u8,
        b: spec_mix_ch(
            spec_mix_ch(p00.b as int, p10.b as int, xf),
            spec_mix_ch(p01.b as int, p11.b as int, xf),
            yf,
        ) as u8,
    }
}

/// Blends two channel bytes by a fixed-point weight.
fn mix_ch(a: u8, b: u8, t: i64) -> (r: u8)
    requires
        0 <= t <= 65536,
    ensures
        r == spec_mix_ch(a as int, b as int, t as int),
        r <= 255,
{
    proof {
        crate::vec::lemma_mul_le(a as int, t as int, 255, 65536);
        crate::vec::lemma_mul_le(b as int, 65536 - t as int, 255, 65536);
        let num = a as int * t + b as int * (65536 - t);
        assert(0 <= num <= 255 * 65536) by (nonlinear_arith)
            requires
                0 <= a <= 255,
                0 <= b <= 255,
                0 <= t <= 65536,
                num == a as int * t + b as int * (65536 - t),
        ;
        vstd::arithmetic::div_mod::lemma_div_pos_is_pos(num, 65536);
        vstd::arithmetic::div_mod::lemma_div_is_ordered(num, (255 * 65536) as int, 65536);
        vstd::arithmetic::div_mod::lemma_div_by_multiple(255, 65536);
    }
    let num: i64 = a as i64 * t + b as i64 * (65536 - t);
    (num / 65536) as u8
}

/// A texel index in fx units stays inside the row once divided down.
proof fn lemma_texel_index(us: int, w: int)
    requires
        w >= 1,
        0 <= us <= 65536 * (w - 1),
    ensures
        0 <= us / 65536 <= w - 1,
        0 <= (us + 65535) / 65536 <= w - 1,
        0 <= us % 65536 <= 65536,
{
    vstd::arithmetic::div_mod::lemma_div_pos_is_pos(us, 65536);
    vstd::arithmetic::div_mod::lemma_div_pos_is_pos(us + 65535, 65536);
    vstd::arithmetic::div_mod::lemma_mod_bound(us, 65536);
    vstd::arithmetic::div_mod::lemma_div_is_ordered(us, 65536 * (w - 1), 65536);
    vstd::arithmetic::div_mod::lemma_div_is_ordered(us + 65535, 65536 * (w - 1) + 65535, 65536);
    vstd::arithmetic::div_mod::lemma_fundamental_div_mod(65536 * (w - 1) + 65535, 65536);
    let q = (65536 * (w - 1) + 65535) / 65536;
    assert(q == w - 1) by (nonlinear_arith)
        requires
            65536 * (w - 1) + 65535 == 65536 * q + (65536 * (w - 1) + 65535) % 65536,
            0 <= (65536 * (w - 1) + 65535) % 65536 < 65536,
    ;
    vstd::arithmetic::div_mod::lemma_div_multiples_vanish(w - 1, 65536);
    assert((w - 1) * 65536 == 65536 * (w - 1)) by (nonlinear_arith);
}

impl Image<crate::color::Color> {
    /// Sample the image at a point in texture space, in fx units: `(0, 0)`
    /// is the lower left corner and `(FX_ONE, FX_ONE)` the upper right.
    /// Points outside that square sample the nearest edge texel, and the
    /// four nearest texels blend bilinearly, as `spec_sample` says.
    pub fn sample_clamp(&self, u: i64, v: i64) -> (c: crate::color::Color)
        requires
            self.wf(),
            1 <= self.width <= 0x10_0000,
            1 <= self.height <= 0x10_0000,
        ensures
            c == spec_sample(*self, u as int, v as int),
    {
        let w = self.width;
        let h = self.height;
        let uc: i64 = if u < 0 {
            0
        } else if u > 65536 {
            65536
        } else {
            u
        };
        let vflip: i64 = 65536 - (if v < 0 {
            0i64
        } else if v > 65536 {
            65536
        } else {
            v
        });
        proof {
            crate::vec::lemma_mul_le(uc as int, (w - 1) as int, 65536, 0x10_0000);
            crate::vec::lemma_mul_le(vflip as int, (h - 1) as int, 65536, 0x10_0000);
            assert(0 <= uc as int * ((w - 1) as int) <= 65536 * ((w - 1) as int))
                by (nonlinear_arith)
                requires
                    0 <= uc <= 65536,
                    w >= 1,
            ;
            assert(0 <= vflip as int * ((h - 1) as int) <= 65536 * ((h - 1) as int))
                by (nonlinear_arith)
                requires
                    0 <= vflip <= 65536,
                    h >= 1,
            ;
            lemma_texel_index(uc as int * ((w - 1) as int), w as int);
            lemma_texel_index(vflip as int * ((h - 1) as int), h as int);
        }
        let us: i64 = uc * (w - 1) as i64;
        let vs: i64 = vflip * (h - 1) as i64;
        let x0: usize = (us / 65536) as usize;
        let x1: usize = ((us + 65535) / 65536) as usize;
        let xf: i64 = us % 65536;
        let y0: usize = (vs / 65536) as usize;
        let y1: usize = ((vs + 65535) / 65536) as usize;
        let yf: i64 = vs % 65536;
        let p00 = self.get(x0, y0);
        let p10 = self.get(x1, y0);
        let p01 = self.get(x0, y1);
        let p11 = self.get(x1, y1);
        crate::color::Color {
            r: mix_ch(mix_ch(p00.r, p10.r, xf), mix_ch(p01.r, p11.r, xf), yf),
            g: mix_ch(mix_ch(p00.g, p10.g, xf), mix_ch(p01.g, p11.g, xf), yf),
            b: mix_ch(mix_ch(p00.b, p10.b, xf), mix_ch(p01.b, p11.b, xf), yf),
        }
    }
}

/// Distinct coordinate pairs address distinct buffer cells.
proof fn lemma_distinct_cells(x1: int, y1: int, x2: int, y2: int, w: int)
    by (nonlinear_arith)
    requires
        0 <= x1 < w,
        0 <= x2 < w,
        !(x1 == x2 && y1 == y2),
    ensures
        y1 * w + x1 != y2 * w + x2,
{
}

impl Image<crate::color::Color> {
    /// Creates a new `width` by `height` `Image` with every pixel black,
    /// the default color.
    pub fn with_dimensions(width: usize, height: usize) -> (img: Self)
        requires
            width * height <= usize::MAX,
        ensures
            img.wf(),
            img.width == width,
            img.height == height,
            forall|x: int, y: int|
                0 <= x < width && 0 <= y < height
                    ==> img.pix(x, y) == (crate::color::Color { r: 0, g: 0, b: 0 }),
    {
        Image::filled(width, height, crate::color::Color::black())
    }
}

impl Image<i64> {
    /// Creates a new `width` by `height` `Image` with every pixel zero.
    pub fn with_dimensions(width: usize, height: usize) -> (img: Self)
        requires
            width * height <= usize::MAX,
        ensures
            img.wf(),
            img.width == width,
            img.height == height,
            forall|x: int, y: int| 0 <= x < width && 0 <= y < height ==> img.pix(x, y) == 0i64,
    {
        Image::filled(width, height, 0)
    }
}

} // verus!
