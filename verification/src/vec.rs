//! Fixed-size integer vectors with the arithmetic the rasterizer needs.
//!
//! Components are plain `i64` values; where a quantity stands for a
//! fraction it is held in fx units (see [`crate::color::FX_ONE`]).

use vstd::prelude::*;

verus! {

/// Largest magnitude a vector component may have when it enters the
/// arithmetic below; keeps every product inside `i64`.
pub const VEC_LIMIT: i64 = 0x4000_0000;

/// Bounded factors give a bounded product.
pub proof fn lemma_mul_le(a: int, b: int, la: int, lb: int)
    by (nonlinear_arith)
    requires
        -la <= a <= la,
        -lb <= b <= lb,
        0 <= la,
        0 <= lb,
    ensures
        -(la * lb) <= a * b <= la * lb,
{
}

/// A 2-component integer vector.
#[derive(Debug, Default, PartialEq, Eq, Structural, Clone, Copy)]
pub struct Vec2(pub i64, pub i64);

/// A 3-component integer vector.
#[derive(Debug, Default, PartialEq, Eq, Structural, Clone, Copy)]
pub struct Vec3(pub i64, pub i64, pub i64);

/// A 4-component integer vector.
#[derive(Debug, Default, PartialEq, Eq, Structural, Clone, Copy)]
pub struct Vec4(pub i64, pub i64, pub i64, pub i64);

impl Vec2 {
    /// Every component's magnitude is at most `VEC_LIMIT`.
    pub open spec fn bounded(self) -> bool {
        &&& -VEC_LIMIT <= self.0 <= VEC_LIMIT
        &&& -VEC_LIMIT <= self.1 <= VEC_LIMIT
    }

    /// The dot product.
    pub fn dot(&self, other: Vec2) -> (r: i64)
        requires
            self.bounded(),
            other.bounded(),
        ensures
            r == self.0 * other.0 + self.1 * other.1,
    {
        proof {
            lemma_mul_le(self.0 as int, other.0 as int, VEC_LIMIT as int, VEC_LIMIT as int);
            lemma_mul_le(self.1 as int, other.1 as int, VEC_LIMIT as int, VEC_LIMIT as int);
        }
        self.0 * other.0 + self.1 * other.1
    }

    /// The squared length.
    pub fn len2(&self) -> (r: i64)
        requires
            self.bounded(),
        ensures
            r == self.0 * self.0 + self.1 * self.1,
    {
        self.dot(*self)
    }
}

impl Vec3 {
    /// Every component's magnitude is at most `VEC_LIMIT`.
    pub open spec fn bounded(self) -> bool {
        &&& -VEC_LIMIT <= self.0 <= VEC_LIMIT
        &&& -VEC_LIMIT <= self.1 <= VEC_LIMIT
        &&& -VEC_LIMIT <= self.2 <= VEC_LIMIT
    }

    /// The cross product.
    pub fn cross(&self, other: Vec3) -> (r: Vec3)
        requires
            self.bounded(),
            other.bounded(),
        ensures
            r.0 == self.1 * other.2 - self.2 * other.1,
            r.1 == self.2 * other.0 - self.0 * other.2,
            r.2 == self.0 * other.1 - self.1 * other.0,
    {
        proof {
            lemma_mul_le(self.0 as int, other.1 as int, VEC_LIMIT as int, VEC_LIMIT as int);
            lemma_mul_le(self.0 as int, other.2 as int, VEC_LIMIT as int, VEC_LIMIT as int);
            lemma_mul_le(self.1 as int, other.0 as int, VEC_LIMIT as int, VEC_LIMIT as int);
            lemma_mul_le(self.1 as int, other.2 as int, VEC_LIMIT as int, VEC_LIMIT as int);
            lemma_mul_le(self.2 as int, other.0 as int, VEC_LIMIT as int, VEC_LIMIT as int);
            lemma_mul_le(self.2 as int, other.1 as int, VEC_LIMIT as int, VEC_LIMIT as int);
        }
        Vec3(
            self.1 * other.2 - self.2 * other.1,
            self.2 * other.0 - self.0 * other.2,
            self.0 * other.1 - self.1 * other.0,
        )
    }

    /// The dot product.
    pub fn dot(&self, other: Vec3) -> (r: i64)
        requires
            self.bounded(),
            other.bounded(),
        ensures
            r == self.0 * other.0 + self.1 * other.1 + self.2 * other.2,
    {
        proof {
            lemma_mul_le(self.0 as int, other.0 as int, VEC_LIMIT as int, VEC_LIMIT as int);
            lemma_mul_le(self.1 as int, other.1 as int, VEC_LIMIT as int, VEC_LIMIT as int);
            lemma_mul_le(self.2 as int, other.2 as int, VEC_LIMIT as int, VEC_LIMIT as int);
        }
        self.0 * other.0 + self.1 * other.1 + self.2 * other.2
    }

    /// The squared length.
    pub fn len2(&self) -> (r: i64)
        requires
            self.bounded(),
        ensures
            r == self.0 * self.0 + self.1 * self.1 + self.2 * self.2,
    {
        self.dot(*self)
    }

    /// Component-wise addition.
    pub fn add(self, other: Vec3) -> (r: Vec3)
        requires
            self.bounded(),
            other.bounded(),
        ensures
            r.0 == self.0 + other.0,
            r.1 == self.1 + other.1,
            r.2 == self.2 + other.2,
    {
        Vec3(self.0 + other.0, self.1 + other.1, self.2 + other.2)
    }

    /// Component-wise subtraction.
    pub fn sub(self, other: Vec3) -> (r: Vec3)
        requires
            self.bounded(),
            other.bounded(),
        ensures
            r.0 == self.0 - other.0,
            r.1 == self.1 - other.1,
            r.2 == self.2 - other.2,
    {
        Vec3(self.0 - other.0, self.1 - other.1, self.2 - other.2)
    }

    /// Multiplication by a scalar.
    pub fn mul(self, other: i64) -> (r: Vec3)
        requires
            self.bounded(),
            -VEC_LIMIT <= other <= VEC_LIMIT,
        ensures
            r.0 == self.0 * other,
            r.1 == self.1 * other,
            r.2 == self.2 * other,
    {
        proof {
            lemma_mul_le(self.0 as int, other as int, VEC_LIMIT as int, VEC_LIMIT as int);
            lemma_mul_le(self.1 as int, other as int, VEC_LIMIT as int, VEC_LIMIT as int);
            lemma_mul_le(self.2 as int, other as int, VEC_LIMIT as int, VEC_LIMIT as int);
        }
        Vec3(self.0 * other, self.1 * other, self.2 * other)
    }

    /// Extend a `Vec3` into a `Vec4` with the last component a 1. This is
    /// frequently useful for matrix multiplication by a 4x4 matrix.
    pub fn augment(&self) -> (r: Vec4)
        ensures
            r == (Vec4(self.0, self.1, self.2, 1)),
    {
        Vec4(self.0, self.1, self.2, 1)
    }
}

impl Vec4 {
    /// Every component's magnitude is at most `VEC_LIMIT`.
    pub open spec fn bounded(self) -> bool {
        &&& -VEC_LIMIT <= self.0 <= VEC_LIMIT
        &&& -VEC_LIMIT <= self.1 <= VEC_LIMIT
        &&& -VEC_LIMIT <= self.2 <= VEC_LIMIT
        &&& -VEC_LIMIT <= self.3 <= VEC_LIMIT
    }

    /// The dot product.
    pub fn dot(&self, other: Vec4) -> (r: i64)
        requires
            self.bounded(),
            other.bounded(),
        ensures
            r == self.0 * other.0 + self.1 * other.1 + self.2 * other.2 + self.3 * other.3,
    {
        proof {
            lemma_mul_le(self.0 as int, other.0 as int, VEC_LIMIT as int, VEC_LIMIT as int);
            lemma_mul_le(self.1 as int, other.1 as int, VEC_LIMIT as int, VEC_LIMIT as int);
            lemma_mul_le(self.2 as int, other.2 as int, VEC_LIMIT as int, VEC_LIMIT as int);
            lemma_mul_le(self.3 as int, other.3 as int, VEC_LIMIT as int, VEC_LIMIT as int);
        }
        self.0 * other.0 + self.1 * other.1 + self.2 * other.2 + self.3 * other.3
    }

    /// The squared length.
    pub fn len2(&self) -> (r: i64)
        requires
            self.bounded(),
        ensures
            r == self.0 * self.0 + self.1 * self.1 + self.2 * self.2 + self.3 * self.3,
    {
        self.dot(*self)
    }

    /// Collapse a clip-space position back to three components by dividing
    /// through the last one, truncating toward zero.
    pub fn retro_project(&self) -> (r: Vec3)
        requires
            self.3 >= 1,
            self.0 != i64::MIN,
            self.1 != i64::MIN,
            self.2 != i64::MIN,
        ensures
            r.0 == crate::fx::spec_tdiv(self.0 as int, self.3 as int),
            r.1 == crate::fx::spec_tdiv(self.1 as int, self.3 as int),
            r.2 == crate::fx::spec_tdiv(self.2 as int, self.3 as int),
    {
        Vec3(
            crate::fx::tdiv(self.0, self.3),
            crate::fx::tdiv(self.1, self.3),
            crate::fx::tdiv(self.2, self.3),
        )
    }
}


impl Vec3 {
    /// The length, as the integer square root of the squared length.
    pub fn len(&self) -> (r: i64)
        requires
            self.bounded(),
        ensures
            r == crate::fx::spec_isqrt(
                self.0 * self.0 + self.1 * self.1 + self.2 * self.2,
            ),
            r >= 0,
    {
        proof {
            lemma_squares_nonneg(self.0 as int, self.1 as int, self.2 as int);
        }
        crate::fx::isqrt(self.len2())
    }

    /// The vector scaled to unit length in fx units: each component is
    /// divided by the length, carrying `FX_ONE` fixed-point precision.
    /// The zero vector has no direction and is excluded.
    pub fn normalized(self) -> (r: Vec3)
        requires
            self.bounded(),
            self.0 * self.0 + self.1 * self.1 + self.2 * self.2 > 0,
        ensures
            ({
                let l = crate::fx::spec_isqrt(
                    self.0 * self.0 + self.1 * self.1 + self.2 * self.2,
                );
                &&& r.0 == crate::fx::spec_tdiv(self.0 * 65536, l)
                &&& r.1 == crate::fx::spec_tdiv(self.1 * 65536, l)
                &&& r.2 == crate::fx::spec_tdiv(self.2 * 65536, l)
                &&& r.bounded()
            }),
    {
        proof {
            lemma_squares_nonneg(self.0 as int, self.1 as int, self.2 as int);
        }
        let n2 = self.len2();
        let l = crate::fx::isqrt(n2);
        proof {
            let n2i = self.0 * self.0 + self.1 * self.1 + self.2 * self.2;
            let li = l as int;
            assert(li >= 1) by (nonlinear_arith)
                requires
                    li >= 0,
                    n2i > 0,
                    n2i < (li + 1) * (li + 1),
            ;
            lemma_mul_le(self.0 as int, 65536, VEC_LIMIT as int, 65536);
            lemma_mul_le(self.1 as int, 65536, VEC_LIMIT as int, 65536);
            lemma_mul_le(self.2 as int, 65536, VEC_LIMIT as int, 65536);
            assert(-(0x2_0000 * li) <= self.0 * 65536 <= 0x2_0000 * li && -(0x2_0000 * li)
                <= self.1 * 65536 <= 0x2_0000 * li && -(0x2_0000 * li) <= self.2 * 65536
                <= 0x2_0000 * li) by (nonlinear_arith)
                requires
                    li >= 1,
                    self.0 * self.0 + self.1 * self.1 + self.2 * self.2 < (li + 1) * (li + 1),
                    -VEC_LIMIT <= self.0 <= VEC_LIMIT,
                    -VEC_LIMIT <= self.1 <= VEC_LIMIT,
                    -VEC_LIMIT <= self.2 <= VEC_LIMIT,
            ;
            crate::model::lemma_tdiv_le(self.0 * 65536, li, 0x2_0000);
            crate::model::lemma_tdiv_le(self.1 * 65536, li, 0x2_0000);
            crate::model::lemma_tdiv_le(self.2 * 65536, li, 0x2_0000);
        }
        Vec3(
            crate::fx::tdiv(self.0 * 65536, l),
            crate::fx::tdiv(self.1 * 65536, l),
            crate::fx::tdiv(self.2 * 65536, l),
        )
    }
}

/// A sum of squares is never negative.
pub proof fn lemma_squares_nonneg(a: int, b: int, c: int)
    by (nonlinear_arith)
    ensures
        a * a >= 0,
        b * b >= 0,
        c * c >= 0,
{
}


/// One term of the direction bound: multiplying a component by its
/// normalized counterpart loses at most one denominator's worth.
proof fn lemma_dot_term(a: int, l: int)
    requires
        l >= 1,
    ensures
        a * crate::fx::spec_tdiv(a * 65536, l) * l >= a * a * 65536 - (if a < 0 {
            -a
        } else {
            a
        }) * l,
{
    if a >= 0 {
        let x = a * 65536;
        vstd::arithmetic::div_mod::lemma_fundamental_div_mod(x, l);
        vstd::arithmetic::div_mod::lemma_mod_bound(x, l);
        let q = x / l;
        assert(crate::fx::spec_tdiv(x, l) == q);
        assert(a * q * l >= a * x - a * l) by (nonlinear_arith)
            requires
                a >= 0,
                x == l * q + x % l,
                0 <= x % l < l,
        ;
        assert(a * x == a * a * 65536) by (nonlinear_arith)
            requires
                x == a * 65536,
        ;
    } else {
        let y = (-a) * 65536;
        assert(y >= 0) by (nonlinear_arith)
            requires
                a < 0,
                y == (-a) * 65536,
        ;
        vstd::arithmetic::div_mod::lemma_fundamental_div_mod(y, l);
        vstd::arithmetic::div_mod::lemma_mod_bound(y, l);
        let q = y / l;
        assert(crate::fx::spec_tdiv(a * 65536, l) == -q) by {
            assert(a * 65536 < 0) by (nonlinear_arith)
                requires
                    a < 0,
            ;
            assert(-(a * 65536) == (-a) * 65536) by (nonlinear_arith);
        };
        assert(a * (-q) * l >= a * a * 65536 - (-a) * l) by (nonlinear_arith)
            requires
                a < 0,
                y == l * q + y % l,
                0 <= y % l < l,
                y == (-a) * 65536,
        ;
    }
}

/// Normalizing preserves direction: the normalized vector's dot product
/// with the original vector is positive.
pub proof fn lemma_normalized_direction(v: Vec3)
    requires
        v.bounded(),
        v.0 * v.0 + v.1 * v.1 + v.2 * v.2 > 0,
    ensures
        ({
            let l = crate::fx::spec_isqrt(v.0 * v.0 + v.1 * v.1 + v.2 * v.2);
            let r0 = crate::fx::spec_tdiv(v.0 * 65536, l);
            let r1 = crate::fx::spec_tdiv(v.1 * 65536, l);
            let r2 = crate::fx::spec_tdiv(v.2 * 65536, l);
            r0 * v.0 + r1 * v.1 + r2 * v.2 > 0
        }),
{
    let n2 = v.0 * v.0 + v.1 * v.1 + v.2 * v.2;
    crate::fx::lemma_isqrt_bounds(n2);
    let l = crate::fx::spec_isqrt(n2);
    assert(l >= 1) by (nonlinear_arith)
        requires
            n2 >= 1,
            l >= 0,
            n2 < (l + 1) * (l + 1),
    ;
    lemma_squares_nonneg(v.0 as int, v.1 as int, v.2 as int);
    assert(-l <= v.0 <= l && -l <= v.1 <= l && -l <= v.2 <= l) by (nonlinear_arith)
        requires
            v.0 * v.0 <= n2,
            v.1 * v.1 <= n2,
            v.2 * v.2 <= n2,
            n2 < (l + 1) * (l + 1),
            l >= 0,
    ;
    lemma_dot_term(v.0 as int, l);
    lemma_dot_term(v.1 as int, l);
    lemma_dot_term(v.2 as int, l);
    let r0 = crate::fx::spec_tdiv(v.0 * 65536, l);
    let r1 = crate::fx::spec_tdiv(v.1 * 65536, l);
    let r2 = crate::fx::spec_tdiv(v.2 * 65536, l);
    let m0 = if v.0 < 0 {
        -v.0 as int
    } else {
        v.0 as int
    };
    let m1 = if v.1 < 0 {
        -v.1 as int
    } else {
        v.1 as int
    };
    let m2 = if v.2 < 0 {
        -v.2 as int
    } else {
        v.2 as int
    };
    assert((r0 * v.0 + r1 * v.1 + r2 * v.2) * l == r0 * v.0 * l + r1 * v.1 * l + r2 * v.2 * l)
        by (nonlinear_arith);
    assert(r0 * v.0 * l == v.0 * r0 * l && r1 * v.1 * l == v.1 * r1 * l && r2 * v.2 * l == v.2 * r2
        * l) by (nonlinear_arith);
    assert(n2 * 65536 == v.0 * v.0 * 65536 + v.1 * v.1 * 65536 + v.2 * v.2 * 65536)
        by (nonlinear_arith)
        requires
            n2 == v.0 * v.0 + v.1 * v.1 + v.2 * v.2,
    ;
    assert((r0 * v.0 + r1 * v.1 + r2 * v.2) * l >= n2 * 65536 - m0 * l - m1 * l - m2 * l);
    assert(n2 * 65536 - m0 * l - m1 * l - m2 * l > 0) by (nonlinear_arith)
        requires
            n2 >= l * l,
            0 <= m0 <= l,
            0 <= m1 <= l,
            0 <= m2 <= l,
            l >= 1,
    ;
    assert(r0 * v.0 + r1 * v.1 + r2 * v.2 > 0) by (nonlinear_arith)
        requires
            (r0 * v.0 + r1 * v.1 + r2 * v.2) * l > 0,
            l >= 1,
    ;
}

/// Largest magnitude a screen-space coordinate may have when it enters the
/// barycentric arithmetic.
pub const RASTER_LIMIT: i64 = 0x10_0000;

/// Largest magnitude a barycentric numerator or denominator built from
/// `RASTER_LIMIT`-bounded points can have.
pub const BARY_NUM_LIMIT: i64 = 0x2000_0000_0000;

/// The cross product `(t2-t0, t1-t0, t0-p)` x-row by y-row that the
/// barycentric weights are built from.
pub open spec fn spec_bary_u(
    t0x: int,
    t0y: int,
    t1x: int,
    t1y: int,
    t2x: int,
    t2y: int,
    px: int,
    py: int,
) -> (int, int, int) {
    (
        (t1x - t0x) * (t0y - py) - (t0x - px) * (t1y - t0y),
        (t0x - px) * (t2y - t0y) - (t2x - t0x) * (t0y - py),
        (t2x - t0x) * (t1y - t0y) - (t1x - t0x) * (t2y - t0y),
    )
}

/// Barycentric weights of `p` with respect to the triangle `(t0, t1, t2)`,
/// as exact rationals `(c0/den, c1/den, c2/den)` with the denominator made
/// nonnegative. A degenerate (zero-area) triangle yields `den == 0`.
pub open spec fn spec_bary(
    t0x: int,
    t0y: int,
    t1x: int,
    t1y: int,
    t2x: int,
    t2y: int,
    px: int,
    py: int,
) -> (int, int, int, int) {
    let u = spec_bary_u(t0x, t0y, t1x, t1y, t2x, t2y, px, py);
    if u.2 >= 0 {
        (u.2 - u.0 - u.1, u.1, u.0, u.2)
    } else {
        (u.0 + u.1 - u.2, -u.1, -u.0, -u.2)
    }
}

/// The three cross-product components annihilate the edge vectors they
/// were built from.
proof fn lemma_cross_annihilates_x(ax: int, ay: int, bx: int, by: int, cx: int, cy: int)
    by (nonlinear_arith)
    ensures
        (bx * ay - ax * by) * cx + (cx * by - bx * cy) * ax + (ax * cy - cx * ay) * bx == 0,
{
}

proof fn lemma_cross_annihilates_y(ax: int, ay: int, bx: int, by: int, cx: int, cy: int)
    by (nonlinear_arith)
    ensures
        (bx * ay - ax * by) * cy + (cx * by - bx * cy) * ay + (ax * cy - cx * ay) * by == 0,
{
}

/// The weights reconstruct the point: `c0*t0 + c1*t1 + c2*t2 == den*p`,
/// and they sum to the denominator.
pub proof fn lemma_bary_reconstruct(
    t0x: int,
    t0y: int,
    t1x: int,
    t1y: int,
    t2x: int,
    t2y: int,
    px: int,
    py: int,
)
    ensures
        ({
            let (c0, c1, c2, den) = spec_bary(t0x, t0y, t1x, t1y, t2x, t2y, px, py);
            &&& c0 + c1 + c2 == den
            &&& den >= 0
            &&& c0 * t0x + c1 * t1x + c2 * t2x == den * px
            &&& c0 * t0y + c1 * t1y + c2 * t2y == den * py
        }),
{
    let ax = t1x - t0x;
    let ay = t1y - t0y;
    let bx = t2x - t0x;
    let by = t2y - t0y;
    let cx = t0x - px;
    let cy = t0y - py;
    let u0 = ax * cy - cx * ay;
    let u1 = cx * by - bx * cy;
    let u2 = bx * ay - ax * by;
    lemma_cross_annihilates_x(ax, ay, bx, by, cx, cy);
    lemma_cross_annihilates_y(ax, ay, bx, by, cx, cy);
    assert(u2 * cx + u1 * ax + u0 * bx == 0);
    assert(u2 * cy + u1 * ay + u0 * by == 0);
    assert((u2 - u0 - u1) * t0x + u1 * t1x + u0 * t2x - u2 * px == u2 * cx + u1 * ax + u0 * bx)
        by (nonlinear_arith)
        requires
            ax == t1x - t0x,
            bx == t2x - t0x,
            cx == t0x - px,
    ;
    assert((u2 - u0 - u1) * t0y + u1 * t1y + u0 * t2y - u2 * py == u2 * cy + u1 * ay + u0 * by)
        by (nonlinear_arith)
        requires
            ay == t1y - t0y,
            by == t2y - t0y,
            cy == t0y - py,
    ;
    if u2 < 0 {
        assert((u0 + u1 - u2) * t0x + (-u1) * t1x + (-u0) * t2x - (-u2) * px == -((u2 - u0 - u1)
            * t0x + u1 * t1x + u0 * t2x - u2 * px)) by (nonlinear_arith);
        assert((u0 + u1 - u2) * t0y + (-u1) * t1y + (-u0) * t2y - (-u2) * py == -((u2 - u0 - u1)
            * t0y + u1 * t1y + u0 * t2y - u2 * py)) by (nonlinear_arith);
    }
}

/// Computes the barycentric weights of `p` with respect to the triangle
/// `(t0, t1, t2)`: the numerators come back in the vector, the denominator
/// beside it, and a degenerate triangle is reported by a zero denominator.
pub fn barycentric(t0: Vec2, t1: Vec2, t2: Vec2, p: Vec2) -> (r: (Vec3, i64))
    requires
        -RASTER_LIMIT <= t0.0 <= RASTER_LIMIT,
        -RASTER_LIMIT <= t0.1 <= RASTER_LIMIT,
        -RASTER_LIMIT <= t1.0 <= RASTER_LIMIT,
        -RASTER_LIMIT <= t1.1 <= RASTER_LIMIT,
        -RASTER_LIMIT <= t2.0 <= RASTER_LIMIT,
        -RASTER_LIMIT <= t2.1 <= RASTER_LIMIT,
        -RASTER_LIMIT <= p.0 <= RASTER_LIMIT,
        -RASTER_LIMIT <= p.1 <= RASTER_LIMIT,
    ensures
        ({
            let (c0, c1, c2, den) = spec_bary(
                t0.0 as int,
                t0.1 as int,
                t1.0 as int,
                t1.1 as int,
                t2.0 as int,
                t2.1 as int,
                p.0 as int,
                p.1 as int,
            );
            &&& r.0.0 == c0
            &&& r.0.1 == c1
            &&& r.0.2 == c2
            &&& r.1 == den
            &&& -BARY_NUM_LIMIT <= c0 <= BARY_NUM_LIMIT
            &&& -BARY_NUM_LIMIT <= c1 <= BARY_NUM_LIMIT
            &&& -BARY_NUM_LIMIT <= c2 <= BARY_NUM_LIMIT
            &&& 0 <= den <= BARY_NUM_LIMIT
        }),
{
    let ax: i64 = t1.0 - t0.0;
    let ay: i64 = t1.1 - t0.1;
    let bx: i64 = t2.0 - t0.0;
    let by: i64 = t2.1 - t0.1;
    let cx: i64 = t0.0 - p.0;
    let cy: i64 = t0.1 - p.1;
    proof {
        lemma_mul_le(ax as int, cy as int, 0x20_0000, 0x20_0000);
        lemma_mul_le(cx as int, ay as int, 0x20_0000, 0x20_0000);
        lemma_mul_le(cx as int, by as int, 0x20_0000, 0x20_0000);
        lemma_mul_le(bx as int, cy as int, 0x20_0000, 0x20_0000);
        lemma_mul_le(bx as int, ay as int, 0x20_0000, 0x20_0000);
        lemma_mul_le(ax as int, by as int, 0x20_0000, 0x20_0000);
    }
    let u0: i64 = ax * cy - cx * ay;
    let u1: i64 = cx * by - bx * cy;
    let u2: i64 = bx * ay - ax * by;
    if u2 >= 0 {
        (Vec3(u2 - u0 - u1, u1, u0), u2)
    } else {
        (Vec3(u0 + u1 - u2, -u1, -u0), -u2)
    }
}

} // verus!
