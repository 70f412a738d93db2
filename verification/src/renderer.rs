//! The triangle rasterizer: scan conversion, depth testing, and shading.

use vstd::prelude::*;
use crate::color::Color;
use crate::image::Image;
use crate::vec::{Vec2, Vec3, RASTER_LIMIT, BARY_NUM_LIMIT, spec_bary, barycentric,
    lemma_bary_reconstruct, lemma_mul_le};
use crate::fx::spec_tdiv;
use crate::vec::Vec4;
use crate::model::{Bary, Model, Vertex};

verus! {

/// Number of depth-buffer units per screen-space z unit: depth values are
/// interpolated with eight fractional bits.
pub const DEPTH_ONE: i64 = 256;

/// A screen-space point's coordinates lie within the raster range.
pub open spec fn pt_ok(t: Vec3) -> bool {
    &&& -RASTER_LIMIT <= t.0 <= RASTER_LIMIT
    &&& -RASTER_LIMIT <= t.1 <= RASTER_LIMIT
    &&& -RASTER_LIMIT <= t.2 <= RASTER_LIMIT
}

/// Whether the pixel center `(px, py)` lies inside the screen-space
/// triangle `(t0, t1, t2)`: all three barycentric weights are nonnegative,
/// and the triangle is not degenerate. Pixels exactly on an edge count as
/// inside.
pub open spec fn covered(t0: Vec3, t1: Vec3, t2: Vec3, px: int, py: int) -> bool {
    let (c0, c1, c2, den) = spec_bary(
        t0.0 as int,
        t0.1 as int,
        t1.0 as int,
        t1.1 as int,
        t2.0 as int,
        t2.1 as int,
        px,
        py,
    );
    den > 0 && c0 >= 0 && c1 >= 0 && c2 >= 0
}

/// The depth of the triangle at `(px, py)`: the barycentric combination of
/// the three corners' z values, in `DEPTH_ONE` fixed-point units. Depth is
/// interpolated with the screen-space weights.
pub open spec fn tri_depth(t0: Vec3, t1: Vec3, t2: Vec3, px: int, py: int) -> int {
    let (c0, c1, c2, den) = spec_bary(
        t0.0 as int,
        t0.1 as int,
        t1.0 as int,
        t1.1 as int,
        t2.0 as int,
        t2.1 as int,
        px,
        py,
    );
    spec_tdiv((c0 * t0.2 + c1 * t1.2 + c2 * t2.2) * DEPTH_ONE, den)
}

/// A covered pixel lies inside the triangle's bounding box.
proof fn lemma_covered_in_box(t0: Vec3, t1: Vec3, t2: Vec3, px: int, py: int)
    requires
        covered(t0, t1, t2, px, py),
    ensures
        spec_min3(t0.0 as int, t1.0 as int, t2.0 as int) <= px
            <= spec_max3(t0.0 as int, t1.0 as int, t2.0 as int),
        spec_min3(t0.1 as int, t1.1 as int, t2.1 as int) <= py
            <= spec_max3(t0.1 as int, t1.1 as int, t2.1 as int),
{
    lemma_bary_reconstruct(
        t0.0 as int,
        t0.1 as int,
        t1.0 as int,
        t1.1 as int,
        t2.0 as int,
        t2.1 as int,
        px,
        py,
    );
    let (c0, c1, c2, den) = spec_bary(
        t0.0 as int,
        t0.1 as int,
        t1.0 as int,
        t1.1 as int,
        t2.0 as int,
        t2.1 as int,
        px,
        py,
    );
    let lox = spec_min3(t0.0 as int, t1.0 as int, t2.0 as int);
    let hix = spec_max3(t0.0 as int, t1.0 as int, t2.0 as int);
    let loy = spec_min3(t0.1 as int, t1.1 as int, t2.1 as int);
    let hiy = spec_max3(t0.1 as int, t1.1 as int, t2.1 as int);
    lemma_convex3_between(c0, c1, c2, den, t0.0 as int, t1.0 as int, t2.0 as int, lox, hix, px);
    lemma_convex3_between(c0, c1, c2, den, t0.1 as int, t1.1 as int, t2.1 as int, loy, hiy, py);
}

/// A convex combination of three values lies between their extremes.
proof fn lemma_convex3_between(
    c0: int,
    c1: int,
    c2: int,
    den: int,
    a0: int,
    a1: int,
    a2: int,
    lo: int,
    hi: int,
    v: int,
)
    requires
        c0 >= 0,
        c1 >= 0,
        c2 >= 0,
        den > 0,
        c0 + c1 + c2 == den,
        lo <= a0 <= hi,
        lo <= a1 <= hi,
        lo <= a2 <= hi,
        c0 * a0 + c1 * a1 + c2 * a2 == den * v,
    ensures
        lo <= v <= hi,
{
    assert(c0 * lo <= c0 * a0 && c0 * a0 <= c0 * hi) by (nonlinear_arith)
        requires
            c0 >= 0,
            lo <= a0 <= hi,
    ;
    assert(c1 * lo <= c1 * a1 && c1 * a1 <= c1 * hi) by (nonlinear_arith)
        requires
            c1 >= 0,
            lo <= a1 <= hi,
    ;
    assert(c2 * lo <= c2 * a2 && c2 * a2 <= c2 * hi) by (nonlinear_arith)
        requires
            c2 >= 0,
            lo <= a2 <= hi,
    ;
    assert(den * lo == c0 * lo + c1 * lo + c2 * lo && den * hi == c0 * hi + c1 * hi + c2 * hi)
        by (nonlinear_arith)
        requires
            den == c0 + c1 + c2,
    ;
    assert(den * lo <= den * v <= den * hi);
    assert(lo <= v <= hi) by (nonlinear_arith)
        requires
            den > 0,
            den * lo <= den * v <= den * hi,
    ;
}

/// The smallest of three values.
pub open spec fn spec_min3(a: int, b: int, c: int) -> int {
    if a <= b && a <= c {
        a
    } else if b <= c {
        b
    } else {
        c
    }
}

/// The largest of three values.
pub open spec fn spec_max3(a: int, b: int, c: int) -> int {
    if a >= b && a >= c {
        a
    } else if b >= c {
        b
    } else {
        c
    }
}

fn min3(a: i64, b: i64, c: i64) -> (r: i64)
    ensures
        r == spec_min3(a as int, b as int, c as int),
{
    if a <= b && a <= c {
        a
    } else if b <= c {
        b
    } else {
        c
    }
}

fn max3(a: i64, b: i64, c: i64) -> (r: i64)
    ensures
        r == spec_max3(a as int, b as int, c as int),
{
    if a >= b && a >= c {
        a
    } else if b >= c {
        b
    } else {
        c
    }
}

/// A renderer: a color buffer and a depth buffer of the same size,
/// written together pixel by pixel as triangles pass the depth test.
pub struct Renderer {
    pub color: Image<Color>,
    pub zbuf: Image<i64>,
}

impl Renderer {
    /// Both buffers are well formed, share the same dimensions, and are
    /// small enough for raster arithmetic.
    pub open spec fn wf(self) -> bool {
        &&& self.color.wf()
        &&& self.zbuf.wf()
        &&& self.color.width == self.zbuf.width
        &&& self.color.height == self.zbuf.height
        &&& self.color.width <= RASTER_LIMIT
        &&& self.color.height <= RASTER_LIMIT
    }

    /// Creates a renderer whose color buffer is black and whose depth
    /// buffer holds the sentinel that every first write beats.
    pub fn with_dimensions(w: usize, h: usize) -> (r: Self)
        requires
            w <= RASTER_LIMIT,
            h <= RASTER_LIMIT,
            w * h <= usize::MAX,
        ensures
            r.wf(),
            r.color.width == w,
            r.color.height == h,
            forall|x: int, y: int|
                0 <= x < w && 0 <= y < h ==> r.color.pix(x, y) == (Color { r: 0, g: 0, b: 0 }),
            forall|x: int, y: int| 0 <= x < w && 0 <= y < h ==> r.zbuf.pix(x, y) == i64::MIN,
    {
        Renderer {
            color: Image::filled(w, h, Color::black()),
            zbuf: Image::filled(w, h, i64::MIN),
        }
    }

    /// The width of the framebuffer in pixels.
    pub fn width(&self) -> (r: usize)
        ensures
            r == self.color.width,
    {
        self.color.width
    }

    /// The height of the framebuffer in pixels.
    pub fn height(&self) -> (r: usize)
        ensures
            r == self.color.height,
    {
        self.color.height
    }

    /// The color buffer drawn so far.
    pub fn image(&self) -> (r: &Image<Color>)
        ensures
            r == &self.color,
    {
        &self.color
    }

    /// Draws a line between two screen-space points into the color buffer,
    /// ignoring depth.
    pub fn line(&mut self, t0: Vec3, t1: Vec3, color: Color)
        requires
            old(self).wf(),
            pt_ok(t0),
            pt_ok(t1),
        ensures
            final(self).wf(),
            final(self).color.width == old(self).color.width,
            final(self).color.height == old(self).color.height,
            final(self).zbuf == old(self).zbuf,
            forall|px: int, py: int|
                0 <= px < final(self).color.width && 0 <= py < final(self).color.height
                    ==> final(self).color.pix(px, py) == (if crate::image::line_hits(
                    t0.0 as int,
                    t0.1 as int,
                    t1.0 as int,
                    t1.1 as int,
                    px,
                    py,
                ) {
                    color
                } else {
                    old(self).color.pix(px, py)
                }),
    {
        self.color.line(t0.0 as isize, t0.1 as isize, t1.0 as isize, t1.1 as isize, color);
    }

    /// Rasterizes one opaque screen-space triangle with depth testing: every
    /// covered pixel whose interpolated depth beats the depth buffer gets
    /// the color, and the depth buffer records the new depth; every other
    /// pixel of both buffers is untouched.
    pub fn triangle(&mut self, t0: Vec3, t1: Vec3, t2: Vec3, color: Color)
        requires
            old(self).wf(),
            pt_ok(t0),
            pt_ok(t1),
            pt_ok(t2),
        ensures
            final(self).wf(),
            final(self).color.width == old(self).color.width,
            final(self).color.height == old(self).color.height,
            forall|px: int, py: int|
                0 <= px < final(self).color.width && 0 <= py < final(self).color.height ==> {
                    if covered(t0, t1, t2, px, py) && tri_depth(t0, t1, t2, px, py) > old(
                        self,
                    ).zbuf.pix(px, py) {
                        &&& final(self).color.pix(px, py) == color
                        &&& final(self).zbuf.pix(px, py) == tri_depth(t0, t1, t2, px, py)
                    } else {
                        &&& final(self).color.pix(px, py) == old(self).color.pix(px, py)
                        &&& final(self).zbuf.pix(px, py) == old(self).zbuf.pix(px, py)
                    }
                },
    {
        let w = self.color.width;
        let h = self.color.height;
        if w == 0 || h == 0 {
            return ;
        }
        let wm1: i64 = (w - 1) as i64;
        let hm1: i64 = (h - 1) as i64;
        let x0: i64 = clamp(min3(t0.0, t1.0, t2.0), wm1);
        let x1: i64 = clamp(max3(t0.0, t1.0, t2.0), wm1);
        let y0: i64 = clamp(min3(t0.1, t1.1, t2.1), hm1);
        let y1: i64 = clamp(max3(t0.1, t1.1, t2.1), hm1);
        let mut x: i64 = x0;
        while x <= x1
            invariant
                self.wf(),
                self.color.width == old(self).color.width,
                self.color.height == old(self).color.height,
                w == self.color.width,
                h == self.color.height,
                0 < w <= RASTER_LIMIT,
                0 < h <= RASTER_LIMIT,
                wm1 == w - 1,
                hm1 == h - 1,
                x0 == clamp_spec(spec_min3(t0.0 as int, t1.0 as int, t2.0 as int), wm1 as int),
                x1 == clamp_spec(spec_max3(t0.0 as int, t1.0 as int, t2.0 as int), wm1 as int),
                y0 == clamp_spec(spec_min3(t0.1 as int, t1.1 as int, t2.1 as int), hm1 as int),
                y1 == clamp_spec(spec_max3(t0.1 as int, t1.1 as int, t2.1 as int), hm1 as int),
                x0 <= x <= x1 + 1,
                0 <= x0,
                x1 <= wm1,
                0 <= y0,
                y1 <= hm1,
                pt_ok(t0),
                pt_ok(t1),
                pt_ok(t2),
                forall|px: int, py: int|
                    0 <= px < w && 0 <= py < h ==> {
                        if x0 <= px < x && y0 <= py <= y1 && covered(t0, t1, t2, px, py)
                            && tri_depth(t0, t1, t2, px, py) > old(self).zbuf.pix(px, py) {
                            &&& self.color.pix(px, py) == color
                            &&& self.zbuf.pix(px, py) == tri_depth(t0, t1, t2, px, py)
                        } else {
                            &&& self.color.pix(px, py) == old(self).color.pix(px, py)
                            &&& self.zbuf.pix(px, py) == old(self).zbuf.pix(px, py)
                        }
                    },
            decreases x1 + 1 - x,
        {
            let mut y: i64 = y0;
            while y <= y1
                invariant
                    self.wf(),
                    self.color.width == old(self).color.width,
                    self.color.height == old(self).color.height,
                    w == self.color.width,
                    h == self.color.height,
                    0 < w <= RASTER_LIMIT,
                    0 < h <= RASTER_LIMIT,
                    wm1 == w - 1,
                    hm1 == h - 1,
                    x0 <= x <= x1,
                    y0 <= y <= y1 + 1,
                    0 <= x0,
                    x1 <= wm1,
                    0 <= y0,
                    y1 <= hm1,
                    pt_ok(t0),
                    pt_ok(t1),
                    pt_ok(t2),
                    forall|px: int, py: int|
                        0 <= px < w && 0 <= py < h ==> {
                            if ((x0 <= px < x && y0 <= py <= y1) || (px == x && y0 <= py < y))
                                && covered(t0, t1, t2, px, py) && tri_depth(t0, t1, t2, px, py)
                                > old(self).zbuf.pix(px, py) {
                                &&& self.color.pix(px, py) == color
                                &&& self.zbuf.pix(px, py) == tri_depth(t0, t1, t2, px, py)
                            } else {
                                &&& self.color.pix(px, py) == old(self).color.pix(px, py)
                                &&& self.zbuf.pix(px, py) == old(self).zbuf.pix(px, py)
                            }
                        },
                decreases y1 + 1 - y,
            {
                let (c, den) = barycentric(
                    Vec2(t0.0, t0.1),
                    Vec2(t1.0, t1.1),
                    Vec2(t2.0, t2.1),
                    Vec2(x, y),
                );
                if den != 0 && c.0 >= 0 && c.1 >= 0 && c.2 >= 0 {
                    proof {
                        lemma_mul_le(c.0 as int, t0.2 as int, BARY_NUM_LIMIT as int, RASTER_LIMIT as int);
                        lemma_mul_le(c.1 as int, t1.2 as int, BARY_NUM_LIMIT as int, RASTER_LIMIT as int);
                        lemma_mul_le(c.2 as int, t2.2 as int, BARY_NUM_LIMIT as int, RASTER_LIMIT as int);
                        lemma_bary_reconstruct(
                            t0.0 as int,
                            t0.1 as int,
                            t1.0 as int,
                            t1.1 as int,
                            t2.0 as int,
                            t2.1 as int,
                            x as int,
                            y as int,
                        );
                        let num = (c.0 as int * t0.2 + c.1 as int * t1.2 + c.2 as int * t2.2)
                            * DEPTH_ONE;
                        assert(-(RASTER_LIMIT as int * DEPTH_ONE * (den as int)) <= num
                            <= RASTER_LIMIT as int * DEPTH_ONE * (den as int)) by (nonlinear_arith)
                            requires
                                c.0 >= 0,
                                c.1 >= 0,
                                c.2 >= 0,
                                (den as int) == c.0 + c.1 + c.2,
                                den > 0,
                                -RASTER_LIMIT <= t0.2 <= RASTER_LIMIT,
                                -RASTER_LIMIT <= t1.2 <= RASTER_LIMIT,
                                -RASTER_LIMIT <= t2.2 <= RASTER_LIMIT,
                                num == (c.0 as int * t0.2 + c.1 as int * t1.2 + c.2 as int * t2.2)
                                    * DEPTH_ONE,
                        ;
                        crate::model::lemma_tdiv_le(
                            num,
                            den as int,
                            RASTER_LIMIT as int * DEPTH_ONE,
                        );
                    }
                    let num: i128 = (c.0 as i128 * t0.2 as i128 + c.1 as i128 * t1.2 as i128
                        + c.2 as i128 * t2.2 as i128) * DEPTH_ONE as i128;
                    let d: i64 = crate::fx::tdiv128(num, den as i128) as i64;
                    let xu: usize = x as usize;
                    let yu: usize = y as usize;
                    let zold: i64 = self.zbuf.get(xu, yu);
                    if d > zold {
                        self.zbuf.set(xu, yu, d);
                        self.color.set(xu, yu, color);
                    }
                }
                y = y + 1;
            }
            x = x + 1;
        }
        proof {
            assert forall|px: int, py: int|
                0 <= px < w && 0 <= py < h && !(x0 <= px <= x1 && y0 <= py <= y1)
                    implies !covered(t0, t1, t2, px, py) by {
                if covered(t0, t1, t2, px, py) {
                    lemma_covered_in_box(t0, t1, t2, px, py);
                }
            };
        }
    }
}

/// A clip-space position the rasterizer can work with: coordinates within
/// the raster range and a positive w. Geometry behind the camera is not
/// supported.
pub open spec fn clip_ok(c: Vec4) -> bool {
    &&& -RASTER_LIMIT <= c.0 <= RASTER_LIMIT
    &&& -RASTER_LIMIT <= c.1 <= RASTER_LIMIT
    &&& -RASTER_LIMIT <= c.2 <= RASTER_LIMIT
    &&& 1 <= c.3 <= RASTER_LIMIT
}

/// The screen-space point that the perspective divide maps a clip-space
/// position to.
pub open spec fn spec_retro(c: Vec4) -> Vec3 {
    Vec3(
        spec_tdiv(c.0 as int, c.3 as int) as i64,
        spec_tdiv(c.1 as int, c.3 as int) as i64,
        spec_tdiv(c.2 as int, c.3 as int) as i64,
    )
}

/// The perspective divide keeps coordinates inside the raster range.
pub proof fn lemma_retro_ok(c: Vec4)
    requires
        clip_ok(c),
    ensures
        pt_ok(spec_retro(c)),
        spec_retro(c).0 == spec_tdiv(c.0 as int, c.3 as int),
        spec_retro(c).1 == spec_tdiv(c.1 as int, c.3 as int),
        spec_retro(c).2 == spec_tdiv(c.2 as int, c.3 as int),
{
    assert(RASTER_LIMIT as int * (c.3 as int) >= RASTER_LIMIT) by (nonlinear_arith)
        requires
            c.3 >= 1,
    ;
    crate::model::lemma_tdiv_le(c.0 as int, c.3 as int, RASTER_LIMIT as int);
    crate::model::lemma_tdiv_le(c.1 as int, c.3 as int, RASTER_LIMIT as int);
    crate::model::lemma_tdiv_le(c.2 as int, c.3 as int, RASTER_LIMIT as int);
}

/// The perspective-corrected barycentric weights at `(px, py)`: each
/// screen-space weight is divided by its corner's clip-space w, which over
/// the common denominator multiplies it by the other two w values.
pub open spec fn pers_bary(
    s0: Vec3,
    s1: Vec3,
    s2: Vec3,
    w0: int,
    w1: int,
    w2: int,
    px: int,
    py: int,
) -> Bary {
    let (c0, c1, c2, den) = spec_bary(
        s0.0 as int,
        s0.1 as int,
        s1.0 as int,
        s1.1 as int,
        s2.0 as int,
        s2.1 as int,
        px,
        py,
    );
    let d0 = c0 * (w1 * w2);
    let d1 = c1 * (w0 * w2);
    let d2 = c2 * (w0 * w1);
    Bary { n0: d0 as i128, n1: d1 as i128, n2: d2 as i128, den: (d0 + d1 + d2) as i128 }
}

/// A two-stage programmable shader: a vertex stage run once per triangle
/// corner, and a fragment stage run once per covered pixel that wins the
/// depth test. Both stages are pure functions of their inputs and the
/// uniform value.
pub trait Shader<V: Vertex, U>: Sized {
    /// The vertex type the vertex stage emits and the fragment stage
    /// consumes.
    type VOut: Vertex;

    /// The value the vertex stage computes.
    spec fn vertex_spec(&self, v: V, u: U) -> (Vec4, Self::VOut);

    /// The color the fragment stage computes.
    spec fn fragment_spec(&self, v: Self::VOut, u: U) -> Color;

    /// Transforms one vertex into a clip-space position and the vertex
    /// handed on to the fragment stage.
    fn vertex(&self, v: V, uniform: &U) -> (r: (Vec4, Self::VOut))
        requires
            v.bounded(),
        ensures
            r == self.vertex_spec(v, *uniform),
            clip_ok(r.0),
            r.1.bounded(),
    ;

    /// Shades one pixel from an interpolated vertex.
    fn fragment(&self, input: Self::VOut, uniform: &U) -> (c: Color)
        requires
            input.bounded(),
        ensures
            c == self.fragment_spec(input, *uniform),
    ;
}

impl Renderer {
    /// Rasterizes one triangle through a shader: the vertex stage maps each
    /// corner to clip space, the perspective divide yields screen points,
    /// and every covered pixel that wins the depth test is shaded by the
    /// fragment stage with a perspective-correct interpolated vertex. Depth
    /// itself is interpolated with the plain screen-space weights.
    pub fn tri<S: Shader<V, U>, V: Vertex, U>(
        &mut self,
        shader: &S,
        uniform: &U,
        t0: V,
        t1: V,
        t2: V,
    )
        requires
            old(self).wf(),
            t0.bounded(),
            t1.bounded(),
            t2.bounded(),
        ensures
            final(self).wf(),
            final(self).color.width == old(self).color.width,
            final(self).color.height == old(self).color.height,
            ({
                let (p0, v0) = shader.vertex_spec(t0, *uniform);
                let (p1, v1) = shader.vertex_spec(t1, *uniform);
                let (p2, v2) = shader.vertex_spec(t2, *uniform);
                let s0 = spec_retro(p0);
                let s1 = spec_retro(p1);
                let s2 = spec_retro(p2);
                forall|px: int, py: int|
                    0 <= px < final(self).color.width && 0 <= py < final(self).color.height ==> {
                        if covered(s0, s1, s2, px, py) && tri_depth(s0, s1, s2, px, py) > old(
                            self,
                        ).zbuf.pix(px, py) {
                            &&& final(self).color.pix(px, py) == shader.fragment_spec(
                                <S::VOut as Vertex>::interp_spec(
                                    pers_bary(
                                        s0,
                                        s1,
                                        s2,
                                        p0.3 as int,
                                        p1.3 as int,
                                        p2.3 as int,
                                        px,
                                        py,
                                    ),
                                    v0,
                                    v1,
                                    v2,
                                ),
                                *uniform,
                            )
                            &&& final(self).zbuf.pix(px, py) == tri_depth(s0, s1, s2, px, py)
                        } else {
                            &&& final(self).color.pix(px, py) == old(self).color.pix(px, py)
                            &&& final(self).zbuf.pix(px, py) == old(self).zbuf.pix(px, py)
                        }
                    }
            }),
    {
        let (p0, v0) = shader.vertex(t0, uniform);
        let (p1, v1) = shader.vertex(t1, uniform);
        let (p2, v2) = shader.vertex(t2, uniform);
        proof {
            lemma_retro_ok(p0);
            lemma_retro_ok(p1);
            lemma_retro_ok(p2);
        }
        let s0 = p0.retro_project();
        let s1 = p1.retro_project();
        let s2 = p2.retro_project();
        let w = self.color.width;
        let h = self.color.height;
        if w == 0 || h == 0 {
            return ;
        }
        let wm1: i64 = (w - 1) as i64;
        let hm1: i64 = (h - 1) as i64;
        let x0: i64 = clamp(min3(s0.0, s1.0, s2.0), wm1);
        let x1: i64 = clamp(max3(s0.0, s1.0, s2.0), wm1);
        let y0: i64 = clamp(min3(s0.1, s1.1, s2.1), hm1);
        let y1: i64 = clamp(max3(s0.1, s1.1, s2.1), hm1);
        let mut x: i64 = x0;
        while x <= x1
            invariant
                self.wf(),
                self.color.width == old(self).color.width,
                self.color.height == old(self).color.height,
                w == self.color.width,
                h == self.color.height,
                0 < w <= RASTER_LIMIT,
                0 < h <= RASTER_LIMIT,
                wm1 == w - 1,
                hm1 == h - 1,
                x0 <= x <= x1 + 1,
                0 <= x0,
                x1 <= wm1,
                0 <= y0,
                y1 <= hm1,
                x0 == clamp_spec(spec_min3(s0.0 as int, s1.0 as int, s2.0 as int), wm1 as int),
                x1 == clamp_spec(spec_max3(s0.0 as int, s1.0 as int, s2.0 as int), wm1 as int),
                y0 == clamp_spec(spec_min3(s0.1 as int, s1.1 as int, s2.1 as int), hm1 as int),
                y1 == clamp_spec(spec_max3(s0.1 as int, s1.1 as int, s2.1 as int), hm1 as int),
                x0 <= x1,
                y0 <= y1,
                (p0, v0) == shader.vertex_spec(t0, *uniform),
                (p1, v1) == shader.vertex_spec(t1, *uniform),
                (p2, v2) == shader.vertex_spec(t2, *uniform),
                clip_ok(p0),
                clip_ok(p1),
                clip_ok(p2),
                v0.bounded(),
                v1.bounded(),
                v2.bounded(),
                s0 == spec_retro(p0),
                s1 == spec_retro(p1),
                s2 == spec_retro(p2),
                pt_ok(s0),
                pt_ok(s1),
                pt_ok(s2),
                forall|px: int, py: int|
                    0 <= px < w && 0 <= py < h ==> {
                        if x0 <= px < x && y0 <= py <= y1 && covered(s0, s1, s2, px, py)
                            && tri_depth(s0, s1, s2, px, py) > old(self).zbuf.pix(px, py) {
                            &&& self.color.pix(px, py) == shader.fragment_spec(
                                <S::VOut as Vertex>::interp_spec(
                                    pers_bary(
                                        s0,
                                        s1,
                                        s2,
                                        p0.3 as int,
                                        p1.3 as int,
                                        p2.3 as int,
                                        px,
                                        py,
                                    ),
                                    v0,
                                    v1,
                                    v2,
                                ),
                                *uniform,
                            )
                            &&& self.zbuf.pix(px, py) == tri_depth(s0, s1, s2, px, py)
                        } else {
                            &&& self.color.pix(px, py) == old(self).color.pix(px, py)
                            &&& self.zbuf.pix(px, py) == old(self).zbuf.pix(px, py)
                        }
                    },
            decreases x1 + 1 - x,
        {
            let mut y: i64 = y0;
            while y <= y1
                invariant
                    self.wf(),
                    self.color.width == old(self).color.width,
                    self.color.height == old(self).color.height,
                    w == self.color.width,
                    h == self.color.height,
                    0 < w <= RASTER_LIMIT,
                    0 < h <= RASTER_LIMIT,
                    wm1 == w - 1,
                    hm1 == h - 1,
                    x0 <= x <= x1,
                    y0 <= y <= y1 + 1,
                    0 <= x0,
                    x1 <= wm1,
                    0 <= y0,
                    y1 <= hm1,
                    y0 <= y1,
                    (p0, v0) == shader.vertex_spec(t0, *uniform),
                    (p1, v1) == shader.vertex_spec(t1, *uniform),
                    (p2, v2) == shader.vertex_spec(t2, *uniform),
                    clip_ok(p0),
                    clip_ok(p1),
                    clip_ok(p2),
                    v0.bounded(),
                    v1.bounded(),
                    v2.bounded(),
                    s0 == spec_retro(p0),
                    s1 == spec_retro(p1),
                    s2 == spec_retro(p2),
                    pt_ok(s0),
                    pt_ok(s1),
                    pt_ok(s2),
                    forall|px: int, py: int|
                        0 <= px < w && 0 <= py < h ==> {
                            if ((x0 <= px < x && y0 <= py <= y1) || (px == x && y0 <= py < y))
                                && covered(s0, s1, s2, px, py) && tri_depth(s0, s1, s2, px, py)
                                > old(self).zbuf.pix(px, py) {
                                &&& self.color.pix(px, py) == shader.fragment_spec(
                                    <S::VOut as Vertex>::interp_spec(
                                        pers_bary(
                                            s0,
                                            s1,
                                            s2,
                                            p0.3 as int,
                                            p1.3 as int,
                                            p2.3 as int,
                                            px,
                                            py,
                                        ),
                                        v0,
                                        v1,
                                        v2,
                                    ),
                                    *uniform,
                                )
                                &&& self.zbuf.pix(px, py) == tri_depth(s0, s1, s2, px, py)
                            } else {
                                &&& self.color.pix(px, py) == old(self).color.pix(px, py)
                                &&& self.zbuf.pix(px, py) == old(self).zbuf.pix(px, py)
                            }
                        },
                decreases y1 + 1 - y,
            {
                let (c, den) = barycentric(
                    Vec2(s0.0, s0.1),
                    Vec2(s1.0, s1.1),
                    Vec2(s2.0, s2.1),
                    Vec2(x, y),
                );
                if den != 0 && c.0 >= 0 && c.1 >= 0 && c.2 >= 0 {
                    proof {
                        lemma_mul_le(c.0 as int, s0.2 as int, BARY_NUM_LIMIT as int, RASTER_LIMIT as int);
                        lemma_mul_le(c.1 as int, s1.2 as int, BARY_NUM_LIMIT as int, RASTER_LIMIT as int);
                        lemma_mul_le(c.2 as int, s2.2 as int, BARY_NUM_LIMIT as int, RASTER_LIMIT as int);
                        lemma_bary_reconstruct(
                            s0.0 as int,
                            s0.1 as int,
                            s1.0 as int,
                            s1.1 as int,
                            s2.0 as int,
                            s2.1 as int,
                            x as int,
                            y as int,
                        );
                        let num = (c.0 as int * s0.2 + c.1 as int * s1.2 + c.2 as int * s2.2)
                            * DEPTH_ONE;
                        assert(-(RASTER_LIMIT as int * DEPTH_ONE * (den as int)) <= num
                            <= RASTER_LIMIT as int * DEPTH_ONE * (den as int)) by (nonlinear_arith)
                            requires
                                c.0 >= 0,
                                c.1 >= 0,
                                c.2 >= 0,
                                (den as int) == c.0 + c.1 + c.2,
                                den > 0,
                                -RASTER_LIMIT <= s0.2 <= RASTER_LIMIT,
                                -RASTER_LIMIT <= s1.2 <= RASTER_LIMIT,
                                -RASTER_LIMIT <= s2.2 <= RASTER_LIMIT,
                                num == (c.0 as int * s0.2 + c.1 as int * s1.2 + c.2 as int * s2.2)
                                    * DEPTH_ONE,
                        ;
                        crate::model::lemma_tdiv_le(
                            num,
                            den as int,
                            RASTER_LIMIT as int * DEPTH_ONE,
                        );
                    }
                    let num: i128 = (c.0 as i128 * s0.2 as i128 + c.1 as i128 * s1.2 as i128
                        + c.2 as i128 * s2.2 as i128) * DEPTH_ONE as i128;
                    let d: i64 = crate::fx::tdiv128(num, den as i128) as i64;
                    let xu: usize = x as usize;
                    let yu: usize = y as usize;
                    let zold: i64 = self.zbuf.get(xu, yu);
                    if d > zold {
                        proof {
                            lemma_pers_weights(
                                c.0 as int,
                                c.1 as int,
                                c.2 as int,
                                den as int,
                                p0.3 as int,
                                p1.3 as int,
                                p2.3 as int,
                            );
                        }
                        proof {
                            lemma_mul_le(p1.3 as int, p2.3 as int, RASTER_LIMIT as int, RASTER_LIMIT as int);
                            lemma_mul_le(p0.3 as int, p2.3 as int, RASTER_LIMIT as int, RASTER_LIMIT as int);
                            lemma_mul_le(p0.3 as int, p1.3 as int, RASTER_LIMIT as int, RASTER_LIMIT as int);
                            lemma_mul_le(c.0 as int, p1.3 as int * p2.3 as int, BARY_NUM_LIMIT as int, RASTER_LIMIT as int * RASTER_LIMIT as int);
                            lemma_mul_le(c.1 as int, p0.3 as int * p2.3 as int, BARY_NUM_LIMIT as int, RASTER_LIMIT as int * RASTER_LIMIT as int);
                            lemma_mul_le(c.2 as int, p0.3 as int * p1.3 as int, BARY_NUM_LIMIT as int, RASTER_LIMIT as int * RASTER_LIMIT as int);
                        }
                        let d0: i128 = c.0 as i128 * (p1.3 as i128 * p2.3 as i128);
                        let d1: i128 = c.1 as i128 * (p0.3 as i128 * p2.3 as i128);
                        let d2: i128 = c.2 as i128 * (p0.3 as i128 * p1.3 as i128);
                        let bary = crate::model::Bary { n0: d0, n1: d1, n2: d2, den: d0 + d1 + d2 };
                        let vert = Vertex::interpolate(&bary, &v0, &v1, &v2);
                        let frag = shader.fragment(vert, uniform);
                        self.zbuf.set(xu, yu, d);
                        self.color.set(xu, yu, frag);
                    }
                }
                y = y + 1;
            }
            x = x + 1;
        }
        proof {
            assert forall|px: int, py: int|
                0 <= px < w && 0 <= py < h && !(x0 <= px <= x1 && y0 <= py <= y1)
                    implies !covered(s0, s1, s2, px, py) by {
                if covered(s0, s1, s2, px, py) {
                    lemma_covered_in_box(s0, s1, s2, px, py);
                }
            };
        }
    }
}

/// What one shaded triangle turns the two pixel buffers into, pixel by
/// pixel: exactly the rule that `tri` ensures, folded over row-major
/// buffers of width `w` and height `h`.
pub open spec fn tri_transition<S: Shader<V, U>, V: Vertex, U>(
    shader: S,
    uniform: U,
    t0: V,
    t1: V,
    t2: V,
    w: int,
    cols: Seq<Color>,
    zs: Seq<i64>,
) -> (Seq<Color>, Seq<i64>) {
    let (p0, v0) = shader.vertex_spec(t0, uniform);
    let (p1, v1) = shader.vertex_spec(t1, uniform);
    let (p2, v2) = shader.vertex_spec(t2, uniform);
    let s0 = spec_retro(p0);
    let s1 = spec_retro(p1);
    let s2 = spec_retro(p2);
    (
        Seq::new(
            cols.len(),
            |idx: int|
                {
                    let px = idx % w;
                    let py = idx / w;
                    if covered(s0, s1, s2, px, py) && tri_depth(s0, s1, s2, px, py) > zs[idx] {
                        shader.fragment_spec(
                            <S::VOut as Vertex>::interp_spec(
                                pers_bary(s0, s1, s2, p0.3 as int, p1.3 as int, p2.3 as int, px, py),
                                v0,
                                v1,
                                v2,
                            ),
                            uniform,
                        )
                    } else {
                        cols[idx]
                    }
                },
        ),
        Seq::new(
            zs.len(),
            |idx: int|
                {
                    let px = idx % w;
                    let py = idx / w;
                    if covered(s0, s1, s2, px, py) && tri_depth(s0, s1, s2, px, py) > zs[idx] {
                        tri_depth(s0, s1, s2, px, py) as i64
                    } else {
                        zs[idx]
                    }
                },
        ),
    )
}

/// What drawing the first `n` triangles of a mesh turns the two pixel
/// buffers into: the per-triangle transitions applied in array order.
pub open spec fn mesh_transition<S: Shader<V, U>, V: Vertex, U>(
    shader: S,
    uniform: U,
    verts: Seq<V>,
    tris: Seq<(usize, usize, usize)>,
    n: int,
    w: int,
    cols: Seq<Color>,
    zs: Seq<i64>,
) -> (Seq<Color>, Seq<i64>)
    decreases n,
{
    if n <= 0 {
        (cols, zs)
    } else {
        let prev = mesh_transition(shader, uniform, verts, tris, n - 1, w, cols, zs);
        tri_transition(
            shader,
            uniform,
            verts[tris[n - 1].0 as int],
            verts[tris[n - 1].1 as int],
            verts[tris[n - 1].2 as int],
            w,
            prev.0,
            prev.1,
        )
    }
}

/// Row-major index arithmetic: splitting an index into its column and row
/// and recombining them is the identity.
proof fn lemma_idx_roundtrip(idx: int, w: int, h: int)
    requires
        0 < w,
        0 < h,
        0 <= idx < w * h,
    ensures
        0 <= idx % w < w,
        0 <= idx / w < h,
        (idx / w) * w + idx % w == idx,
{
    vstd::arithmetic::div_mod::lemma_fundamental_div_mod(idx, w);
    vstd::arithmetic::div_mod::lemma_mod_bound(idx, w);
    vstd::arithmetic::div_mod::lemma_div_pos_is_pos(idx, w);
    assert(idx / w < h) by (nonlinear_arith)
        requires
            idx == w * (idx / w) + idx % w,
            0 <= idx % w,
            idx < w * h,
            w > 0,
            idx / w >= 0,
    ;
    assert((idx / w) * w == w * (idx / w)) by (nonlinear_arith);
}

impl Renderer {
    /// Draws every triangle of a mesh, in array order, through the shader.
    pub fn model<S: Shader<V, U>, V: Vertex + Copy, U>(
        &mut self,
        shader: &S,
        uniform: &U,
        model: &Model<V>,
    )
        requires
            old(self).wf(),
            model.wf(),
            forall|i: int| 0 <= i < model.vertices@.len() ==> (#[trigger] model.vertices@[i]).bounded(),
        ensures
            final(self).wf(),
            final(self).color.width == old(self).color.width,
            final(self).color.height == old(self).color.height,
            (final(self).color.pixels@, final(self).zbuf.pixels@) == mesh_transition(
                *shader,
                *uniform,
                model.vertices@,
                model.triangles@,
                model.triangles@.len() as int,
                old(self).color.width as int,
                old(self).color.pixels@,
                old(self).zbuf.pixels@,
            ),
    {
        let ghost w = self.color.width as int;
        let ghost h = self.color.height as int;
        let ghost cols0 = self.color.pixels@;
        let ghost zs0 = self.zbuf.pixels@;
        let mut i: usize = 0;
        while i < model.triangles.len()
            invariant
                self.wf(),
                old(self).wf(),
                self.color.width == old(self).color.width,
                self.color.height == old(self).color.height,
                w == old(self).color.width as int,
                h == old(self).color.height as int,
                cols0 == old(self).color.pixels@,
                zs0 == old(self).zbuf.pixels@,
                model.wf(),
                forall|k: int|
                    0 <= k < model.vertices@.len() ==> (#[trigger] model.vertices@[k]).bounded(),
                i <= model.triangles@.len(),
                (self.color.pixels@, self.zbuf.pixels@) == mesh_transition(
                    *shader,
                    *uniform,
                    model.vertices@,
                    model.triangles@,
                    i as int,
                    w,
                    cols0,
                    zs0,
                ),
            decreases model.triangles@.len() - i,
        {
            let t = model.triangles[i];
            let ghost pre = *self;
            self.tri(
                shader,
                uniform,
                model.vertices[t.0],
                model.vertices[t.1],
                model.vertices[t.2],
            );
            proof {
                lemma_tri_seq_form(
                    *shader,
                    *uniform,
                    model.vertices@[t.0 as int],
                    model.vertices@[t.1 as int],
                    model.vertices@[t.2 as int],
                    pre,
                    *self,
                );
            }
            i = i + 1;
        }
    }
}

/// The pointwise rule that `tri` ensures is the same thing as the
/// sequence-level `tri_transition`.
proof fn lemma_tri_seq_form<S: Shader<V, U>, V: Vertex, U>(
    shader: S,
    uniform: U,
    t0: V,
    t1: V,
    t2: V,
    pre: Renderer,
    post: Renderer,
)
    requires
        pre.wf(),
        post.wf(),
        post.color.width == pre.color.width,
        post.color.height == pre.color.height,
        ({
            let (p0, v0) = shader.vertex_spec(t0, uniform);
            let (p1, v1) = shader.vertex_spec(t1, uniform);
            let (p2, v2) = shader.vertex_spec(t2, uniform);
            let s0 = spec_retro(p0);
            let s1 = spec_retro(p1);
            let s2 = spec_retro(p2);
            forall|px: int, py: int|
                0 <= px < post.color.width && 0 <= py < post.color.height ==> {
                    if covered(s0, s1, s2, px, py) && tri_depth(s0, s1, s2, px, py) > pre.zbuf.pix(
                        px,
                        py,
                    ) {
                        &&& post.color.pix(px, py) == shader.fragment_spec(
                            <S::VOut as Vertex>::interp_spec(
                                pers_bary(s0, s1, s2, p0.3 as int, p1.3 as int, p2.3 as int, px, py),
                                v0,
                                v1,
                                v2,
                            ),
                            uniform,
                        )
                        &&& post.zbuf.pix(px, py) == tri_depth(s0, s1, s2, px, py)
                    } else {
                        &&& post.color.pix(px, py) == pre.color.pix(px, py)
                        &&& post.zbuf.pix(px, py) == pre.zbuf.pix(px, py)
                    }
                }
        }),
    ensures
        (post.color.pixels@, post.zbuf.pixels@) == tri_transition(
            shader,
            uniform,
            t0,
            t1,
            t2,
            pre.color.width as int,
            pre.color.pixels@,
            pre.zbuf.pixels@,
        ),
{
    let w = pre.color.width as int;
    let h = pre.color.height as int;
    let r = tri_transition(
        shader,
        uniform,
        t0,
        t1,
        t2,
        w,
        pre.color.pixels@,
        pre.zbuf.pixels@,
    );
    assert(post.color.pixels@.len() == w * h && post.zbuf.pixels@.len() == w * h);
    assert forall|idx: int| 0 <= idx < w * h implies post.color.pixels@[idx] == r.0[idx]
        && post.zbuf.pixels@[idx] == r.1[idx] by {
        lemma_idx_roundtrip(idx, w, h);
        let px = idx % w;
        let py = idx / w;
        assert(post.color.pix(px, py) == post.color.pixels@[idx]);
        assert(post.zbuf.pix(px, py) == post.zbuf.pixels@[idx]);
        assert(pre.color.pix(px, py) == pre.color.pixels@[idx]);
        assert(pre.zbuf.pix(px, py) == pre.zbuf.pixels@[idx]);
    };
    assert(post.color.pixels@ =~= r.0);
    assert(post.zbuf.pixels@ =~= r.1);
}

/// The barycentric numerators of bounded points are bounded.
pub proof fn lemma_bary_bounded(t0: Vec3, t1: Vec3, t2: Vec3, px: int, py: int)
    requires
        pt_ok(t0),
        pt_ok(t1),
        pt_ok(t2),
        -RASTER_LIMIT <= px <= RASTER_LIMIT,
        -RASTER_LIMIT <= py <= RASTER_LIMIT,
    ensures
        ({
            let (c0, c1, c2, den) = spec_bary(
                t0.0 as int,
                t0.1 as int,
                t1.0 as int,
                t1.1 as int,
                t2.0 as int,
                t2.1 as int,
                px,
                py,
            );
            &&& -BARY_NUM_LIMIT <= c0 <= BARY_NUM_LIMIT
            &&& -BARY_NUM_LIMIT <= c1 <= BARY_NUM_LIMIT
            &&& -BARY_NUM_LIMIT <= c2 <= BARY_NUM_LIMIT
            &&& -BARY_NUM_LIMIT <= den <= BARY_NUM_LIMIT
        }),
{
    lemma_mul_le(t1.0 - t0.0, t0.1 as int - py, 0x20_0000, 0x20_0000);
    lemma_mul_le(t0.0 as int - px, t1.1 - t0.1, 0x20_0000, 0x20_0000);
    lemma_mul_le(t0.0 as int - px, t2.1 - t0.1, 0x20_0000, 0x20_0000);
    lemma_mul_le(t2.0 - t0.0, t0.1 as int - py, 0x20_0000, 0x20_0000);
    lemma_mul_le(t2.0 - t0.0, t1.1 - t0.1, 0x20_0000, 0x20_0000);
    lemma_mul_le(t1.0 - t0.0, t2.1 - t0.1, 0x20_0000, 0x20_0000);
}

/// The interpolated depth of a covered pixel of a bounded triangle fits
/// the depth range.
pub proof fn lemma_depth_bounded(t0: Vec3, t1: Vec3, t2: Vec3, px: int, py: int)
    requires
        pt_ok(t0),
        pt_ok(t1),
        pt_ok(t2),
        -RASTER_LIMIT <= px <= RASTER_LIMIT,
        -RASTER_LIMIT <= py <= RASTER_LIMIT,
        covered(t0, t1, t2, px, py),
    ensures
        -(RASTER_LIMIT as int * DEPTH_ONE) <= tri_depth(t0, t1, t2, px, py) <= RASTER_LIMIT as int
            * DEPTH_ONE,
{
    lemma_bary_bounded(t0, t1, t2, px, py);
    lemma_bary_reconstruct(
        t0.0 as int,
        t0.1 as int,
        t1.0 as int,
        t1.1 as int,
        t2.0 as int,
        t2.1 as int,
        px,
        py,
    );
    let (c0, c1, c2, den) = spec_bary(
        t0.0 as int,
        t0.1 as int,
        t1.0 as int,
        t1.1 as int,
        t2.0 as int,
        t2.1 as int,
        px,
        py,
    );
    let num = (c0 * t0.2 + c1 * t1.2 + c2 * t2.2) * DEPTH_ONE;
    assert(-(RASTER_LIMIT as int * DEPTH_ONE * den) <= num <= RASTER_LIMIT as int * DEPTH_ONE
        * den) by (nonlinear_arith)
        requires
            c0 >= 0,
            c1 >= 0,
            c2 >= 0,
            den == c0 + c1 + c2,
            den > 0,
            -RASTER_LIMIT <= t0.2 <= RASTER_LIMIT,
            -RASTER_LIMIT <= t1.2 <= RASTER_LIMIT,
            -RASTER_LIMIT <= t2.2 <= RASTER_LIMIT,
            num == (c0 * t0.2 + c1 * t1.2 + c2 * t2.2) * DEPTH_ONE,
    ;
    crate::model::lemma_tdiv_le(num, den, RASTER_LIMIT as int * DEPTH_ONE);
}

/// Truncating division is monotone in the numerator.
pub proof fn lemma_tdiv_ordered(a: int, b: int, den: int)
    requires
        den >= 1,
        a <= b,
    ensures
        spec_tdiv(a, den) <= spec_tdiv(b, den),
{
    if a >= 0 {
        vstd::arithmetic::div_mod::lemma_div_is_ordered(a, b, den);
    } else if b < 0 {
        vstd::arithmetic::div_mod::lemma_div_is_ordered(-b, -a, den);
    } else {
        vstd::arithmetic::div_mod::lemma_div_pos_is_pos(-a, den);
        vstd::arithmetic::div_mod::lemma_div_pos_is_pos(b, den);
    }
}

/// The depth test rejects a second copy of a triangle drawn at the same
/// screen positions with depths that are no higher: after the first draw
/// the depth buffer is at least the first triangle's depth wherever it is
/// covered, so no pixel of the second draw can win.
pub proof fn lemma_second_draw_rejected(
    t0: Vec3,
    t1: Vec3,
    t2: Vec3,
    u0: Vec3,
    u1: Vec3,
    u2: Vec3,
    zbefore: Image<i64>,
    zmid: Image<i64>,
    px: int,
    py: int,
)
    requires
        pt_ok(t0),
        pt_ok(t1),
        pt_ok(t2),
        -RASTER_LIMIT <= px <= RASTER_LIMIT,
        -RASTER_LIMIT <= py <= RASTER_LIMIT,
        u0.0 == t0.0 && u0.1 == t0.1 && u0.2 <= t0.2,
        u1.0 == t1.0 && u1.1 == t1.1 && u1.2 <= t1.2,
        u2.0 == t2.0 && u2.1 == t2.1 && u2.2 <= t2.2,
        zmid.pix(px, py) == (if covered(t0, t1, t2, px, py) && tri_depth(t0, t1, t2, px, py)
            > zbefore.pix(px, py) {
            tri_depth(t0, t1, t2, px, py) as i64
        } else {
            zbefore.pix(px, py)
        }),
    ensures
        !(covered(u0, u1, u2, px, py) && tri_depth(u0, u1, u2, px, py) > zmid.pix(px, py)),
{
    if covered(u0, u1, u2, px, py) {
        let (c0, c1, c2, den) = spec_bary(
            t0.0 as int,
            t0.1 as int,
            t1.0 as int,
            t1.1 as int,
            t2.0 as int,
            t2.1 as int,
            px,
            py,
        );
        assert(covered(t0, t1, t2, px, py));
        lemma_depth_bounded(t0, t1, t2, px, py);
        assert(c0 * u0.2 + c1 * u1.2 + c2 * u2.2 <= c0 * t0.2 + c1 * t1.2 + c2 * t2.2)
            by (nonlinear_arith)
            requires
                c0 >= 0,
                c1 >= 0,
                c2 >= 0,
                u0.2 <= t0.2,
                u1.2 <= t1.2,
                u2.2 <= t2.2,
        ;
        assert((c0 * u0.2 + c1 * u1.2 + c2 * u2.2) * DEPTH_ONE <= (c0 * t0.2 + c1 * t1.2 + c2
            * t2.2) * DEPTH_ONE) by (nonlinear_arith)
            requires
                c0 * u0.2 + c1 * u1.2 + c2 * u2.2 <= c0 * t0.2 + c1 * t1.2 + c2 * t2.2,
                DEPTH_ONE > 0,
        ;
        lemma_tdiv_ordered(
            (c0 * u0.2 + c1 * u1.2 + c2 * u2.2) * DEPTH_ONE,
            (c0 * t0.2 + c1 * t1.2 + c2 * t2.2) * DEPTH_ONE,
            den,
        );
    }
}

/// The perspective-corrected weights are nonnegative, at least as large as
/// the screen-space weights they came from, and small enough for `Bary`.
proof fn lemma_pers_weights(c0: int, c1: int, c2: int, den: int, w0: int, w1: int, w2: int)
    by (nonlinear_arith)
    requires
        c0 >= 0,
        c1 >= 0,
        c2 >= 0,
        den > 0,
        c0 + c1 + c2 == den,
        c0 <= BARY_NUM_LIMIT,
        c1 <= BARY_NUM_LIMIT,
        c2 <= BARY_NUM_LIMIT,
        1 <= w0 <= RASTER_LIMIT,
        1 <= w1 <= RASTER_LIMIT,
        1 <= w2 <= RASTER_LIMIT,
    ensures
        c0 * (w1 * w2) >= c0,
        c1 * (w0 * w2) >= c1,
        c2 * (w0 * w1) >= c2,
        c0 * (w1 * w2) >= 0,
        c1 * (w0 * w2) >= 0,
        c2 * (w0 * w1) >= 0,
        c0 * (w1 * w2) <= BARY_NUM_LIMIT * (RASTER_LIMIT * RASTER_LIMIT),
        c1 * (w0 * w2) <= BARY_NUM_LIMIT * (RASTER_LIMIT * RASTER_LIMIT),
        c2 * (w0 * w1) <= BARY_NUM_LIMIT * (RASTER_LIMIT * RASTER_LIMIT),
{
}

/// `v` clamped into `[0, hi]`.
pub open spec fn clamp_spec(v: int, hi: int) -> int {
    if v > hi {
        if hi < 0 {
            0
        } else {
            hi
        }
    } else if v < 0 {
        0
    } else {
        v
    }
}

fn clamp(v: i64, hi: i64) -> (r: i64)
    requires
        hi >= 0,
    ensures
        r == clamp_spec(v as int, hi as int),
        0 <= r <= hi,
{
    if v > hi {
        hi
    } else if v < 0 {
        0
    } else {
        v
    }
}

} // verus!
