//! Vertices, barycentric interpolation, and indexed triangle meshes.

use vstd::prelude::*;
use crate::vec::{Vec2, Vec3, VEC_LIMIT, lemma_mul_le};
use crate::fx::spec_tdiv;

verus! {

/// Largest barycentric-weight numerator or denominator the interpolation
/// arithmetic accepts; keeps every product inside `i128`.
pub const BARY_LIMIT: i128 = 0x4000_0000_0000_0000_0000_0000;

/// Barycentric weights as exact rationals over one common denominator:
/// the weight of corner `i` is `ni / den`.
#[derive(Debug, Clone, Copy)]
pub struct Bary {
    pub n0: i128,
    pub n1: i128,
    pub n2: i128,
    pub den: i128,
}

impl Bary {
    /// The weights are nonnegative, sum to one, and are small enough for
    /// the interpolation arithmetic.
    pub open spec fn wf(self) -> bool {
        &&& 1 <= self.den <= BARY_LIMIT
        &&& 0 <= self.n0
        &&& 0 <= self.n1
        &&& 0 <= self.n2
        &&& self.n0 + self.n1 + self.n2 == self.den
    }
}

/// The weighted combination of three attribute values, truncated toward
/// zero: `(a0*n0 + a1*n1 + a2*n2) / den`.
pub open spec fn spec_interp(a0: int, a1: int, a2: int, w: Bary) -> int {
    spec_tdiv(a0 * w.n0 + a1 * w.n1 + a2 * w.n2, w.den as int)
}

/// A convex combination of bounded values stays bounded.
pub proof fn lemma_convex_bound(a0: int, a1: int, a2: int, w: Bary, m: int)
    by (nonlinear_arith)
    requires
        w.wf(),
        -m <= a0 <= m,
        -m <= a1 <= m,
        -m <= a2 <= m,
        0 <= m,
    ensures
        -(m * w.den) <= a0 * w.n0 + a1 * w.n1 + a2 * w.n2 <= m * w.den,
{
}

/// Truncating division shrinks magnitudes: `|num| <= m * den` gives
/// `|num / den| <= m`.
pub proof fn lemma_tdiv_le(num: int, den: int, m: int)
    requires
        den >= 1,
        0 <= m,
        -(m * den) <= num <= m * den,
    ensures
        -m <= spec_tdiv(num, den) <= m,
{
    let a = if num < 0 {
        -num
    } else {
        num
    };
    vstd::arithmetic::div_mod::lemma_fundamental_div_mod(a, den);
    let q = a / den;
    vstd::arithmetic::div_mod::lemma_div_pos_is_pos(a, den);
    assert(q <= m) by (nonlinear_arith)
        requires
            a == den * q + a % den,
            0 <= a % den,
            a <= m * den,
            den >= 1,
            q >= 0,
    ;
}

/// Interpolation at a corner's own unit weight reproduces the value exactly.
pub proof fn lemma_interp_at_corner(a0: int, a1: int, a2: int, w: Bary)
    requires
        w.wf(),
        w.n0 == w.den,
    ensures
        spec_interp(a0, a1, a2, w) == a0,
{
    assert(a0 * w.n0 + a1 * w.n1 + a2 * w.n2 == a0 * w.den) by (nonlinear_arith)
        requires
            w.n0 == w.den && w.n1 == 0 && w.n2 == 0,
    ;
    let den = w.den as int;
    if a0 >= 0 {
        vstd::arithmetic::div_mod::lemma_div_multiples_vanish(a0, den);
    } else {
        vstd::arithmetic::div_mod::lemma_div_multiples_vanish(-a0, den);
        assert(-(a0 * den) == (-a0) * den) by (nonlinear_arith);
    }
}

/// Combines three bounded attribute values by barycentric weights.
pub fn interp_scalar(a0: i64, a1: i64, a2: i64, w: &Bary) -> (r: i64)
    requires
        w.wf(),
        -VEC_LIMIT <= a0 <= VEC_LIMIT,
        -VEC_LIMIT <= a1 <= VEC_LIMIT,
        -VEC_LIMIT <= a2 <= VEC_LIMIT,
    ensures
        r == spec_interp(a0 as int, a1 as int, a2 as int, *w),
        -VEC_LIMIT <= r <= VEC_LIMIT,
{
    proof {
        lemma_mul_le(a0 as int, w.n0 as int, VEC_LIMIT as int, BARY_LIMIT as int);
        lemma_mul_le(a1 as int, w.n1 as int, VEC_LIMIT as int, BARY_LIMIT as int);
        lemma_mul_le(a2 as int, w.n2 as int, VEC_LIMIT as int, BARY_LIMIT as int);
        lemma_convex_bound(a0 as int, a1 as int, a2 as int, *w, VEC_LIMIT as int);
        lemma_tdiv_le(
            a0 as int * w.n0 + a1 as int * w.n1 + a2 as int * w.n2,
            w.den as int,
            VEC_LIMIT as int,
        );
    }
    let num: i128 = a0 as i128 * w.n0 + a1 as i128 * w.n1 + a2 as i128 * w.n2;
    let q: i128 = crate::fx::tdiv128(num, w.den);
    q as i64
}

/// Anything a triangle corner can carry: it sits somewhere, and three of
/// them can be blended by barycentric weights.
pub trait Vertex: Sized {
    /// All the attribute components are small enough for interpolation.
    spec fn bounded(&self) -> bool;

    /// The value that blending three vertices must produce.
    spec fn interp_spec(w: Bary, t0: Self, t1: Self, t2: Self) -> Self;

    /// The vertex position.
    fn pos(&self) -> (p: Vec3)
        ensures
            p == self.pos_spec(),
    ;

    /// The position that `pos` returns.
    spec fn pos_spec(&self) -> Vec3;

    /// Blend three vertices by barycentric weights: every attribute of the
    /// result is the weighted sum of the corresponding attributes.
    fn interpolate(w: &Bary, t0: &Self, t1: &Self, t2: &Self) -> (r: Self)
        requires
            w.wf(),
            t0.bounded(),
            t1.bounded(),
            t2.bounded(),
        ensures
            r == Self::interp_spec(*w, *t0, *t1, *t2),
            r.bounded(),
    ;
}

impl Vertex for Vec3 {
    open spec fn bounded(&self) -> bool {
        Vec3::bounded(*self)
    }

    open spec fn interp_spec(w: Bary, t0: Self, t1: Self, t2: Self) -> Self {
        Vec3(
            spec_interp(t0.0 as int, t1.0 as int, t2.0 as int, w) as i64,
            spec_interp(t0.1 as int, t1.1 as int, t2.1 as int, w) as i64,
            spec_interp(t0.2 as int, t1.2 as int, t2.2 as int, w) as i64,
        )
    }

    open spec fn pos_spec(&self) -> Vec3 {
        *self
    }

    fn pos(&self) -> (p: Vec3) {
        *self
    }

    fn interpolate(w: &Bary, t0: &Self, t1: &Self, t2: &Self) -> (r: Self) {
        Vec3(
            interp_scalar(t0.0, t1.0, t2.0, w),
            interp_scalar(t0.1, t1.1, t2.1, w),
            interp_scalar(t0.2, t1.2, t2.2, w),
        )
    }
}

/// A vertex with a position, a texture coordinate, and a normal.
#[derive(Debug, Clone, Copy)]
pub struct Vert {
    pub pos: Vec3,
    pub tex: Vec2,
    pub norm: Vec3,
}

impl Vertex for Vert {
    open spec fn bounded(&self) -> bool {
        &&& self.pos.bounded()
        &&& self.tex.bounded()
        &&& self.norm.bounded()
    }

    open spec fn interp_spec(w: Bary, t0: Self, t1: Self, t2: Self) -> Self {
        Vert {
            pos: <Vec3 as Vertex>::interp_spec(w, t0.pos, t1.pos, t2.pos),
            tex: Vec2(
                spec_interp(t0.tex.0 as int, t1.tex.0 as int, t2.tex.0 as int, w) as i64,
                spec_interp(t0.tex.1 as int, t1.tex.1 as int, t2.tex.1 as int, w) as i64,
            ),
            norm: <Vec3 as Vertex>::interp_spec(w, t0.norm, t1.norm, t2.norm),
        }
    }

    open spec fn pos_spec(&self) -> Vec3 {
        self.pos
    }

    fn pos(&self) -> (p: Vec3) {
        self.pos
    }

    fn interpolate(w: &Bary, t0: &Self, t1: &Self, t2: &Self) -> (r: Self) {
        Vert {
            pos: Vertex::interpolate(w, &t0.pos, &t1.pos, &t2.pos),
            tex: Vec2(
                interp_scalar(t0.tex.0, t1.tex.0, t2.tex.0, w),
                interp_scalar(t0.tex.1, t1.tex.1, t2.tex.1, w),
            ),
            norm: Vertex::interpolate(w, &t0.norm, &t1.norm, &t2.norm),
        }
    }
}

/// A vertex carrying a full tangent frame for normal mapping.
#[derive(Debug, Clone, Copy)]
pub struct TanVert {
    pub pos: Vec3,
    pub tex: Vec2,
    pub norm: Vec3,
    pub tan: Vec3,
    pub bitan: Vec3,
}

impl Vertex for TanVert {
    open spec fn bounded(&self) -> bool {
        &&& self.pos.bounded()
        &&& self.tex.bounded()
        &&& self.norm.bounded()
        &&& self.tan.bounded()
        &&& self.bitan.bounded()
    }

    open spec fn interp_spec(w: Bary, t0: Self, t1: Self, t2: Self) -> Self {
        TanVert {
            pos: <Vec3 as Vertex>::interp_spec(w, t0.pos, t1.pos, t2.pos),
            tex: Vec2(
                spec_interp(t0.tex.0 as int, t1.tex.0 as int, t2.tex.0 as int, w) as i64,
                spec_interp(t0.tex.1 as int, t1.tex.1 as int, t2.tex.1 as int, w) as i64,
            ),
            norm: <Vec3 as Vertex>::interp_spec(w, t0.norm, t1.norm, t2.norm),
            tan: <Vec3 as Vertex>::interp_spec(w, t0.tan, t1.tan, t2.tan),
            bitan: <Vec3 as Vertex>::interp_spec(w, t0.bitan, t1.bitan, t2.bitan),
        }
    }

    open spec fn pos_spec(&self) -> Vec3 {
        self.pos
    }

    fn pos(&self) -> (p: Vec3) {
        self.pos
    }

    fn interpolate(w: &Bary, t0: &Self, t1: &Self, t2: &Self) -> (r: Self) {
        TanVert {
            pos: Vertex::interpolate(w, &t0.pos, &t1.pos, &t2.pos),
            tex: Vec2(
                interp_scalar(t0.tex.0, t1.tex.0, t2.tex.0, w),
                interp_scalar(t0.tex.1, t1.tex.1, t2.tex.1, w),
            ),
            norm: Vertex::interpolate(w, &t0.norm, &t1.norm, &t2.norm),
            tan: Vertex::interpolate(w, &t0.tan, &t1.tan, &t2.tan),
            bitan: Vertex::interpolate(w, &t0.bitan, &t1.bitan, &t2.bitan),
        }
    }
}

/// Interpolating a whole vertex at a corner's unit weight reproduces that
/// vertex: the weights `(1, 0, 0)` give back the first corner exactly.
pub proof fn lemma_vert_interp_at_corner(w: Bary, t0: Vert, t1: Vert, t2: Vert)
    requires
        w.wf(),
        w.n0 == w.den,
        t0.bounded(),
    ensures
        <Vert as Vertex>::interp_spec(w, t0, t1, t2) == t0,
{
    lemma_interp_at_corner(t0.pos.0 as int, t1.pos.0 as int, t2.pos.0 as int, w);
    lemma_interp_at_corner(t0.pos.1 as int, t1.pos.1 as int, t2.pos.1 as int, w);
    lemma_interp_at_corner(t0.pos.2 as int, t1.pos.2 as int, t2.pos.2 as int, w);
    lemma_interp_at_corner(t0.tex.0 as int, t1.tex.0 as int, t2.tex.0 as int, w);
    lemma_interp_at_corner(t0.tex.1 as int, t1.tex.1 as int, t2.tex.1 as int, w);
    lemma_interp_at_corner(t0.norm.0 as int, t1.norm.0 as int, t2.norm.0 as int, w);
    lemma_interp_at_corner(t0.norm.1 as int, t1.norm.1 as int, t2.norm.1 as int, w);
    lemma_interp_at_corner(t0.norm.2 as int, t1.norm.2 as int, t2.norm.2 as int, w);
}

/// An indexed triangle mesh: a pool of vertices plus index triples, each
/// triple naming one triangle.
#[derive(Debug)]
pub struct Model<V> {
    pub vertices: Vec<V>,
    pub triangles: Vec<(usize, usize, usize)>,
}

impl<V: Vertex> Model<V> {
    /// Every triangle's indices point into the vertex pool.
    pub open spec fn wf(self) -> bool {
        forall|i: int|
            0 <= i < self.triangles@.len() ==> {
                &&& #[trigger] self.triangles@[i].0 < self.vertices@.len()
                &&& self.triangles@[i].1 < self.vertices@.len()
                &&& self.triangles@[i].2 < self.vertices@.len()
            }
    }

    /// Builds a mesh after checking that every index triple points inside
    /// the vertex pool; a triple that does not is rejected.
    pub fn new(vertices: Vec<V>, triangles: Vec<(usize, usize, usize)>) -> (r: Option<Model<V>>)
        ensures
            match r {
                Some(m) => {
                    &&& m.wf()
                    &&& m.vertices == vertices
                    &&& m.triangles == triangles
                },
                None => exists|i: int|
                    0 <= i < triangles@.len() && !(#[trigger] (triangles@[i].0) < vertices@.len()
                        && triangles@[i].1 < vertices@.len() && triangles@[i].2
                        < vertices@.len()),
            },
    {
        let n = vertices.len();
        let mut i: usize = 0;
        while i < triangles.len()
            invariant
                i <= triangles@.len(),
                n == vertices@.len(),
                forall|k: int|
                    0 <= k < i ==> {
                        &&& #[trigger] triangles@[k].0 < n
                        &&& triangles@[k].1 < n
                        &&& triangles@[k].2 < n
                    },
            decreases triangles@.len() - i,
        {
            let t = triangles[i];
            if t.0 >= n || t.1 >= n || t.2 >= n {
                return None;
            }
            i = i + 1;
        }
        Some(Model { vertices, triangles })
    }
}

/// Largest magnitude a mesh coordinate may have when it enters the
/// tangent-space solve; keeps the 3 by 3 systems inside `MAT_LIMIT`.
pub const TAN_LIMIT: i64 = 0x8_0000;

/// A vertex whose components are small enough for the tangent-space
/// solve.
pub open spec fn tan_vert_bounded(v: Vert) -> bool {
    &&& -TAN_LIMIT <= v.pos.0 <= TAN_LIMIT
    &&& -TAN_LIMIT <= v.pos.1 <= TAN_LIMIT
    &&& -TAN_LIMIT <= v.pos.2 <= TAN_LIMIT
    &&& -TAN_LIMIT <= v.tex.0 <= TAN_LIMIT
    &&& -TAN_LIMIT <= v.tex.1 <= TAN_LIMIT
    &&& -TAN_LIMIT <= v.norm.0 <= TAN_LIMIT
    &&& -TAN_LIMIT <= v.norm.1 <= TAN_LIMIT
    &&& -TAN_LIMIT <= v.norm.2 <= TAN_LIMIT
}

/// The 3 by 3 system of triangle `i`'s corner `j`: the two object-space
/// edges and that corner's own normal, as rows.
pub open spec fn corner_system(m: Model<Vert>, i: int, j: int) -> crate::mat::Mat3 {
    let t = m.triangles@[i];
    let v0 = m.vertices@[t.0 as int];
    let v1 = m.vertices@[t.1 as int];
    let v2 = m.vertices@[t.2 as int];
    let vj = m.vertices@[(if j == 0 {
        t.0
    } else if j == 1 {
        t.1
    } else {
        t.2
    }) as int];
    crate::mat::Mat3 {
        r0: Vec3(
            (v1.pos.0 - v0.pos.0) as i64,
            (v1.pos.1 - v0.pos.1) as i64,
            (v1.pos.2 - v0.pos.2) as i64,
        ),
        r1: Vec3(
            (v2.pos.0 - v0.pos.0) as i64,
            (v2.pos.1 - v0.pos.1) as i64,
            (v2.pos.2 - v0.pos.2) as i64,
        ),
        r2: vj.norm,
    }
}

/// The texture-space edge vector of triangle `i`, for the `u` axis when
/// `which` holds and for the `v` axis otherwise.
pub open spec fn uv_edges(m: Model<Vert>, i: int, which: bool) -> (int, int, int) {
    let t = m.triangles@[i];
    let v0 = m.vertices@[t.0 as int];
    let v1 = m.vertices@[t.1 as int];
    let v2 = m.vertices@[t.2 as int];
    if which {
        (v1.tex.0 - v0.tex.0, v2.tex.0 - v0.tex.0, 0)
    } else {
        (v1.tex.1 - v0.tex.1, v2.tex.1 - v0.tex.1, 0)
    }
}

/// The tangent (or bitangent, by `which`) contribution of triangle `i`'s
/// corner `j`: the corner's system solved against the texture edge, as
/// the exact adjugate product over the determinant.
pub open spec fn corner_solve(m: Model<Vert>, i: int, j: int, which: bool) -> (int, int, int) {
    let sys = corner_system(m, i, j);
    let a = crate::mat::spec_adj3(sys);
    let d = crate::mat::spec_det3(sys);
    let u = uv_edges(m, i, which);
    (
        spec_tdiv(a.r0.0 * u.0 + a.r0.1 * u.1 + a.r0.2 * u.2, d),
        spec_tdiv(a.r1.0 * u.0 + a.r1.1 * u.1 + a.r1.2 * u.2, d),
        spec_tdiv(a.r2.0 * u.0 + a.r2.1 * u.1 + a.r2.2 * u.2, d),
    )
}

/// Some corner's system is singular: its triangle is degenerate, or its
/// edges are colinear with its normal.
pub open spec fn has_degenerate_corner(m: Model<Vert>) -> bool {
    exists|i: int, j: int|
        0 <= i < m.triangles@.len() && 0 <= j < 3 && crate::mat::spec_det3(
            #[trigger] corner_system(m, i, j),
        ) == 0
}

/// What triangle `i` adds to vertex `vid`'s accumulated tangent (or
/// bitangent): one solve per corner that names `vid`.
pub open spec fn tri_contrib(m: Model<Vert>, i: int, vid: int, which: bool) -> (int, int, int) {
    let t = m.triangles@[i];
    let d0 = if t.0 == vid {
        corner_solve(m, i, 0, which)
    } else {
        (0, 0, 0)
    };
    let d1 = if t.1 == vid {
        corner_solve(m, i, 1, which)
    } else {
        (0, 0, 0)
    };
    let d2 = if t.2 == vid {
        corner_solve(m, i, 2, which)
    } else {
        (0, 0, 0)
    };
    (d0.0 + d1.0 + d2.0, d0.1 + d1.1 + d2.1, d0.2 + d1.2 + d2.2)
}

/// Vertex `vid`'s tangent (or bitangent) sum over the first `n`
/// triangles.
pub open spec fn accum(m: Model<Vert>, n: int, vid: int, which: bool) -> (int, int, int)
    decreases n,
{
    if n <= 0 {
        (0, 0, 0)
    } else {
        let p = accum(m, n - 1, vid, which);
        let d = tri_contrib(m, n - 1, vid, which);
        (p.0 + d.0, p.1 + d.1, p.2 + d.2)
    }
}

/// The accumulated sum of vertex `vid` stays in vector range and has a
/// direction to normalize.
pub open spec fn accum_usable(m: Model<Vert>, vid: int, which: bool) -> bool {
    let a = accum(m, m.triangles@.len() as int, vid, which);
    &&& -VEC_LIMIT <= a.0 <= VEC_LIMIT
    &&& -VEC_LIMIT <= a.1 <= VEC_LIMIT
    &&& -VEC_LIMIT <= a.2 <= VEC_LIMIT
    &&& a.0 * a.0 + a.1 * a.1 + a.2 * a.2 > 0
}

/// The tangent pass succeeds: no corner's system is singular, and every
/// vertex's accumulated tangent and bitangent can be normalized.
pub open spec fn tangent_ok(m: Model<Vert>) -> bool {
    &&& !has_degenerate_corner(m)
    &&& forall|vid: int| 0 <= vid < m.vertices@.len() ==> accum_usable(m, vid, true)
    &&& forall|vid: int| 0 <= vid < m.vertices@.len() ==> accum_usable(m, vid, false)
}

/// A vector scaled to unit length in fx units, componentwise.
pub open spec fn spec_normalized(a: (int, int, int)) -> Vec3 {
    let l = crate::fx::spec_isqrt(a.0 * a.0 + a.1 * a.1 + a.2 * a.2);
    Vec3(
        spec_tdiv(a.0 * 65536, l) as i64,
        spec_tdiv(a.1 * 65536, l) as i64,
        spec_tdiv(a.2 * 65536, l) as i64,
    )
}

/// The vertex that the tangent pass produces for `vid`: the input vertex
/// with the normalized accumulated tangent and bitangent beside it.
pub open spec fn spec_tangent_vert(m: Model<Vert>, vid: int) -> TanVert {
    let v = m.vertices@[vid];
    TanVert {
        pos: v.pos,
        tex: v.tex,
        norm: v.norm,
        tan: spec_normalized(accum(m, m.triangles@.len() as int, vid, true)),
        bitan: spec_normalized(accum(m, m.triangles@.len() as int, vid, false)),
    }
}

/// One solved corner system: the adjugate of `sys` applied to the
/// texture edge `(u0, u1, 0)`, over the determinant.
fn solve_one(sys: crate::mat::Mat3, u0: i64, u1: i64, d: i64) -> (r: (i128, i128, i128))
    requires
        sys.bounded(),
        d == crate::mat::spec_det3(sys),
        d != 0,
        -0x10_0000 <= u0 <= 0x10_0000,
        -0x10_0000 <= u1 <= 0x10_0000,
    ensures
        ({
            let a = crate::mat::spec_adj3(sys);
            &&& r.0 == spec_tdiv(a.r0.0 * u0 + a.r0.1 * u1 + a.r0.2 * 0, d as int)
            &&& r.1 == spec_tdiv(a.r1.0 * u0 + a.r1.1 * u1 + a.r1.2 * 0, d as int)
            &&& r.2 == spec_tdiv(a.r2.0 * u0 + a.r2.1 * u1 + a.r2.2 * 0, d as int)
        }),
        -0x4000_0000_0000_0000 <= r.0 <= 0x4000_0000_0000_0000,
        -0x4000_0000_0000_0000 <= r.1 <= 0x4000_0000_0000_0000,
        -0x4000_0000_0000_0000 <= r.2 <= 0x4000_0000_0000_0000,
{
    let (a, dd) = match sys.inverted() {
        Ok(p) => p,
        Err(()) => {
            proof {
                assert(false);
            }
            (crate::mat::Mat3::identity(), 1)
        },
    };
    proof {
        crate::mat::lemma_adj3_entries(sys);
        lemma_solve_bounds(a.r0.0 as int, a.r0.1 as int, u0 as int, u1 as int);
        lemma_solve_bounds(a.r1.0 as int, a.r1.1 as int, u0 as int, u1 as int);
        lemma_solve_bounds(a.r2.0 as int, a.r2.1 as int, u0 as int, u1 as int);
    }
    let n0: i128 = a.r0.0 as i128 * u0 as i128 + a.r0.1 as i128 * u1 as i128;
    let n1: i128 = a.r1.0 as i128 * u0 as i128 + a.r1.1 as i128 * u1 as i128;
    let n2: i128 = a.r2.0 as i128 * u0 as i128 + a.r2.1 as i128 * u1 as i128;
    let (sgn, dabs): (bool, i128) = if d < 0 {
        (true, -(d as i128))
    } else {
        (false, d as i128)
    };
    let r0 = crate::fx::tdiv128(if sgn { -n0 } else { n0 }, dabs);
    let r1 = crate::fx::tdiv128(if sgn { -n1 } else { n1 }, dabs);
    let r2 = crate::fx::tdiv128(if sgn { -n2 } else { n2 }, dabs);
    proof {
        lemma_tdiv_neg_den(n0 as int, d as int);
        lemma_tdiv_neg_den(n1 as int, d as int);
        lemma_tdiv_neg_den(n2 as int, d as int);
        lemma_tdiv_le(n0 as int, dabs as int, 0x4000_0000_0000_0000);
        lemma_tdiv_le(-(n0 as int), dabs as int, 0x4000_0000_0000_0000);
        lemma_tdiv_le(n1 as int, dabs as int, 0x4000_0000_0000_0000);
        lemma_tdiv_le(-(n1 as int), dabs as int, 0x4000_0000_0000_0000);
        lemma_tdiv_le(n2 as int, dabs as int, 0x4000_0000_0000_0000);
        lemma_tdiv_le(-(n2 as int), dabs as int, 0x4000_0000_0000_0000);
    }
    (r0, r1, r2)
}

/// Products of adjugate entries and texture edges stay inside the solve
/// range.
proof fn lemma_solve_bounds(a0: int, a1: int, u0: int, u1: int)
    requires
        -0x200_0000_0000 <= a0 <= 0x200_0000_0000,
        -0x200_0000_0000 <= a1 <= 0x200_0000_0000,
        -0x10_0000 <= u0 <= 0x10_0000,
        -0x10_0000 <= u1 <= 0x10_0000,
    ensures
        -0x2000_0000_0000_0000 <= a0 * u0 <= 0x2000_0000_0000_0000,
        -0x2000_0000_0000_0000 <= a1 * u1 <= 0x2000_0000_0000_0000,
        -0x4000_0000_0000_0000 <= a0 * u0 + a1 * u1 <= 0x4000_0000_0000_0000,
{
    lemma_mul_le(a0, u0, 0x200_0000_0000, 0x10_0000);
    lemma_mul_le(a1, u1, 0x200_0000_0000, 0x10_0000);
}

/// Negating both operands leaves a truncating quotient unchanged.
proof fn lemma_tdiv_neg_den(n: int, d: int)
    requires
        d != 0,
    ensures
        d < 0 ==> spec_tdiv(n, d) == spec_tdiv(-n, -d),
{
}

/// Adds a contribution to one accumulator slot.
fn bump(acc: &mut Vec<(i128, i128, i128)>, idx: usize, d: (i128, i128, i128), bound: Ghost<int>)
    requires
        idx < old(acc)@.len(),
        0 <= bound@,
        bound@ + 0x4000_0000_0000_0000 < i128::MAX,
        -bound@ <= old(acc)@[idx as int].0 <= bound@,
        -bound@ <= old(acc)@[idx as int].1 <= bound@,
        -bound@ <= old(acc)@[idx as int].2 <= bound@,
        -0x4000_0000_0000_0000 <= d.0 <= 0x4000_0000_0000_0000,
        -0x4000_0000_0000_0000 <= d.1 <= 0x4000_0000_0000_0000,
        -0x4000_0000_0000_0000 <= d.2 <= 0x4000_0000_0000_0000,
    ensures
        final(acc)@.len() == old(acc)@.len(),
        final(acc)@[idx as int].0 == old(acc)@[idx as int].0 + d.0,
        final(acc)@[idx as int].1 == old(acc)@[idx as int].1 + d.1,
        final(acc)@[idx as int].2 == old(acc)@[idx as int].2 + d.2,
        forall|v: int|
            0 <= v < final(acc)@.len() && v != idx ==> #[trigger] final(acc)@[v] == old(acc)@[v],
{
    let cur = acc[idx];
    acc.set(idx, (cur.0 + d.0, cur.1 + d.1, cur.2 + d.2));
}

/// Handles one triangle of the tangent pass: solves all three corner
/// systems and adds the contributions into the accumulators, or reports a
/// degenerate corner.
#[verifier::rlimit(100)]
fn tangent_step(
    model: &Model<Vert>,
    i: usize,
    acc_t: &mut Vec<(i128, i128, i128)>,
    acc_b: &mut Vec<(i128, i128, i128)>,
) -> (r: Result<(), ()>)
    requires
        model.wf(),
        forall|k: int|
            0 <= k < model.vertices@.len() ==> tan_vert_bounded(#[trigger] model.vertices@[k]),
        i < model.triangles@.len(),
        model.triangles@.len() <= 0x1_0000_0000,
        old(acc_t)@.len() == model.vertices@.len(),
        old(acc_b)@.len() == model.vertices@.len(),
        forall|v: int|
            0 <= v < old(acc_t)@.len() ==> {
                let a = #[trigger] old(acc_t)@[v];
                let sp = accum(*model, i as int, v, true);
                &&& (a.0 as int, a.1 as int, a.2 as int) == sp
                &&& -(6 * 0x4000_0000_0000_0000 * (i as int)) <= a.0 <= 6 * 0x4000_0000_0000_0000
                    * (i as int)
                &&& -(6 * 0x4000_0000_0000_0000 * (i as int)) <= a.1 <= 6 * 0x4000_0000_0000_0000
                    * (i as int)
                &&& -(6 * 0x4000_0000_0000_0000 * (i as int)) <= a.2 <= 6 * 0x4000_0000_0000_0000
                    * (i as int)
            },
        forall|v: int|
            0 <= v < old(acc_b)@.len() ==> {
                let a = #[trigger] old(acc_b)@[v];
                let sp = accum(*model, i as int, v, false);
                &&& (a.0 as int, a.1 as int, a.2 as int) == sp
                &&& -(6 * 0x4000_0000_0000_0000 * (i as int)) <= a.0 <= 6 * 0x4000_0000_0000_0000
                    * (i as int)
                &&& -(6 * 0x4000_0000_0000_0000 * (i as int)) <= a.1 <= 6 * 0x4000_0000_0000_0000
                    * (i as int)
                &&& -(6 * 0x4000_0000_0000_0000 * (i as int)) <= a.2 <= 6 * 0x4000_0000_0000_0000
                    * (i as int)
            },
    ensures
        final(acc_t)@.len() == old(acc_t)@.len(),
        final(acc_b)@.len() == old(acc_b)@.len(),
        r matches Err(_) ==> has_degenerate_corner(*model),
        r matches Ok(_) ==> {
            &&& forall|jj: int|
                0 <= jj < 3 ==> crate::mat::spec_det3(#[trigger] corner_system(*model, i as int, jj))
                    != 0
            &&& forall|v: int|
                0 <= v < final(acc_t)@.len() ==> {
                    let a = #[trigger] final(acc_t)@[v];
                    let sp = accum(*model, i as int + 1, v, true);
                    &&& (a.0 as int, a.1 as int, a.2 as int) == sp
                    &&& -(6 * 0x4000_0000_0000_0000 * (i as int + 1)) <= a.0 <= 6
                        * 0x4000_0000_0000_0000 * (i as int + 1)
                    &&& -(6 * 0x4000_0000_0000_0000 * (i as int + 1)) <= a.1 <= 6
                        * 0x4000_0000_0000_0000 * (i as int + 1)
                    &&& -(6 * 0x4000_0000_0000_0000 * (i as int + 1)) <= a.2 <= 6
                        * 0x4000_0000_0000_0000 * (i as int + 1)
                }
            &&& forall|v: int|
                0 <= v < final(acc_b)@.len() ==> {
                    let a = #[trigger] final(acc_b)@[v];
                    let sp = accum(*model, i as int + 1, v, false);
                    &&& (a.0 as int, a.1 as int, a.2 as int) == sp
                    &&& -(6 * 0x4000_0000_0000_0000 * (i as int + 1)) <= a.0 <= 6
                        * 0x4000_0000_0000_0000 * (i as int + 1)
                    &&& -(6 * 0x4000_0000_0000_0000 * (i as int + 1)) <= a.1 <= 6
                        * 0x4000_0000_0000_0000 * (i as int + 1)
                    &&& -(6 * 0x4000_0000_0000_0000 * (i as int + 1)) <= a.2 <= 6
                        * 0x4000_0000_0000_0000 * (i as int + 1)
                }
        },
{
    let ghost big: int = 0x4000_0000_0000_0000;
    let nv = acc_t.len();
    let t = model.triangles[i];
    let v0 = model.vertices[t.0];
    let v1 = model.vertices[t.1];
    let v2 = model.vertices[t.2];
    let e1 = v1.pos.sub(v0.pos);
    let e2 = v2.pos.sub(v0.pos);
    let u0t = v1.tex.0 - v0.tex.0;
    let u1t = v2.tex.0 - v0.tex.0;
    let u0b = v1.tex.1 - v0.tex.1;
    let u1b = v2.tex.1 - v0.tex.1;
    let m0 = crate::mat::Mat3 { r0: e1, r1: e2, r2: v0.norm };
    let m1 = crate::mat::Mat3 { r0: e1, r1: e2, r2: v1.norm };
    let m2 = crate::mat::Mat3 { r0: e1, r1: e2, r2: v2.norm };
    proof {
        assert(m0 == corner_system(*model, i as int, 0));
        assert(m1 == corner_system(*model, i as int, 1));
        assert(m2 == corner_system(*model, i as int, 2));
    }
    let d0 = m0.det();
    let d1 = m1.det();
    let d2 = m2.det();
    if d0 == 0 || d1 == 0 || d2 == 0 {
        proof {
            assert(has_degenerate_corner(*model));
        }
        return Err(());
    }
    let ct0 = solve_one(m0, u0t, u1t, d0);
    let ct1 = solve_one(m1, u0t, u1t, d1);
    let ct2 = solve_one(m2, u0t, u1t, d2);
    let cb0 = solve_one(m0, u0b, u1b, d0);
    let cb1 = solve_one(m1, u0b, u1b, d1);
    let cb2 = solve_one(m2, u0b, u1b, d2);
    proof {
        assert((ct0.0 as int, ct0.1 as int, ct0.2 as int) == corner_solve(
            *model,
            i as int,
            0,
            true,
        ));
        assert((ct1.0 as int, ct1.1 as int, ct1.2 as int) == corner_solve(
            *model,
            i as int,
            1,
            true,
        ));
        assert((ct2.0 as int, ct2.1 as int, ct2.2 as int) == corner_solve(
            *model,
            i as int,
            2,
            true,
        ));
        assert((cb0.0 as int, cb0.1 as int, cb0.2 as int) == corner_solve(
            *model,
            i as int,
            0,
            false,
        ));
        assert((cb1.0 as int, cb1.1 as int, cb1.2 as int) == corner_solve(
            *model,
            i as int,
            1,
            false,
        ));
        assert((cb2.0 as int, cb2.1 as int, cb2.2 as int) == corner_solve(
            *model,
            i as int,
            2,
            false,
        ));
    }
    let ghost bnd = 6 * 0x4000_0000_0000_0000 * (i as int);
    proof {
        assert(0 <= bnd && bnd <= 6 * 0x4000_0000_0000_0000 * 0x1_0000_0000) by (nonlinear_arith)
            requires
                bnd == 6 * 0x4000_0000_0000_0000 * (i as int),
                0 <= i <= 0x1_0000_0000,
        ;
        assert(6 * 0x4000_0000_0000_0000 * (i as int + 1) == bnd + 6 * 0x4000_0000_0000_0000)
            by (nonlinear_arith)
            requires
                bnd == 6 * 0x4000_0000_0000_0000 * (i as int),
        ;
    }
    let ghost at0 = acc_t@;
    bump(acc_t, t.0, ct0, Ghost(bnd));
    bump(acc_t, t.1, ct1, Ghost(bnd + 0x4000_0000_0000_0000));
    bump(acc_t, t.2, ct2, Ghost(bnd + 2 * 0x4000_0000_0000_0000));
    let ghost ab0 = acc_b@;
    bump(acc_b, t.0, cb0, Ghost(bnd));
    bump(acc_b, t.1, cb1, Ghost(bnd + 0x4000_0000_0000_0000));
    bump(acc_b, t.2, cb2, Ghost(bnd + 2 * 0x4000_0000_0000_0000));
    proof {
        assert forall|v: int| 0 <= v < nv implies {
            let a = #[trigger] acc_t@[v];
            (a.0 as int, a.1 as int, a.2 as int) == accum(*model, i as int + 1, v, true)
        } by {
            assert(at0[v] == (accum(*model, i as int, v, true).0 as i128, accum(
                *model,
                i as int,
                v,
                true,
            ).1 as i128, accum(*model, i as int, v, true).2 as i128));
        };
        assert forall|v: int| 0 <= v < nv implies {
            let a = #[trigger] acc_b@[v];
            (a.0 as int, a.1 as int, a.2 as int) == accum(*model, i as int + 1, v, false)
        } by {
            assert(ab0[v] == (accum(*model, i as int, v, false).0 as i128, accum(
                *model,
                i as int,
                v,
                false,
            ).1 as i128, accum(*model, i as int, v, false).2 as i128));
        };
    }
    Ok(())
}

/// Augments each vertex of a mesh with a tangent and a bitangent frame,
/// solving `[edge1; edge2; corner normal] * t = [du; dv; 0]` per triangle
/// corner with the exact adjugate and accumulating per vertex; the
/// accumulated frames are then normalized to fx units. The mesh is
/// rejected when some corner's system is singular (a degenerate
/// triangle), and when a vertex's accumulated frame leaves the vector
/// range or has no direction.
pub fn compute_tangent_space(model: Model<Vert>) -> (r: Result<Model<TanVert>, ()>)
    requires
        model.wf(),
        forall|i: int|
            0 <= i < model.vertices@.len() ==> tan_vert_bounded(#[trigger] model.vertices@[i]),
        model.triangles@.len() <= 0x1_0000_0000,
    ensures
        tangent_ok(model) ==> (r matches Ok(out) && {
            &&& out.wf()
            &&& out.triangles@ == model.triangles@
            &&& out.vertices@.len() == model.vertices@.len()
            &&& forall|i: int|
                0 <= i < out.vertices@.len() ==> #[trigger] out.vertices@[i] == spec_tangent_vert(
                    model,
                    i,
                )
        }),
        !tangent_ok(model) ==> (r matches Err(_)),
{
    let nv = model.vertices.len();
    let nt = model.triangles.len();
    let mut acc_t: Vec<(i128, i128, i128)> = Vec::new();
    let mut acc_b: Vec<(i128, i128, i128)> = Vec::new();
    let mut z: usize = 0;
    while z < nv
        invariant
            z <= nv,
            acc_t@.len() == z,
            acc_b@.len() == z,
            forall|v: int| 0 <= v < z ==> #[trigger] acc_t@[v] == (0i128, 0i128, 0i128),
            forall|v: int| 0 <= v < z ==> #[trigger] acc_b@[v] == (0i128, 0i128, 0i128),
        decreases nv - z,
    {
        acc_t.push((0, 0, 0));
        acc_b.push((0, 0, 0));
        z = z + 1;
    }
    let ghost big: int = 0x4000_0000_0000_0000;
    let mut i: usize = 0;
    while i < nt
        invariant
            i <= nt,
            nv == model.vertices@.len(),
            nt == model.triangles@.len(),
            nt <= 0x1_0000_0000,
            model.wf(),
            forall|k: int|
                0 <= k < model.vertices@.len() ==> tan_vert_bounded(
                    #[trigger] model.vertices@[k],
                ),
            big == 0x4000_0000_0000_0000,
            acc_t@.len() == nv,
            acc_b@.len() == nv,
            forall|ii: int, jj: int|
                0 <= ii < i && 0 <= jj < 3 ==> crate::mat::spec_det3(
                    #[trigger] corner_system(model, ii, jj),
                ) != 0,
            forall|v: int|
                0 <= v < nv ==> {
                    let a = #[trigger] acc_t@[v];
                    let sp = accum(model, i as int, v, true);
                    &&& (a.0 as int, a.1 as int, a.2 as int) == sp
                    &&& -(6 * big * (i as int)) <= a.0 <= 6 * big * (i as int)
                    &&& -(6 * big * (i as int)) <= a.1 <= 6 * big * (i as int)
                    &&& -(6 * big * (i as int)) <= a.2 <= 6 * big * (i as int)
                },
            forall|v: int|
                0 <= v < nv ==> {
                    let a = #[trigger] acc_b@[v];
                    let sp = accum(model, i as int, v, false);
                    &&& (a.0 as int, a.1 as int, a.2 as int) == sp
                    &&& -(6 * big * (i as int)) <= a.0 <= 6 * big * (i as int)
                    &&& -(6 * big * (i as int)) <= a.1 <= 6 * big * (i as int)
                    &&& -(6 * big * (i as int)) <= a.2 <= 6 * big * (i as int)
                },
        decreases nt - i,
    {
        match tangent_step(&model, i, &mut acc_t, &mut acc_b) {
            Ok(()) => {},
            Err(()) => {
                return Err(());
            },
        }
        i = i + 1;
    }
    proof {
        assert(!has_degenerate_corner(model));
    }
    let mut out: Vec<TanVert> = Vec::new();
    let mut v: usize = 0;
    while v < nv
        invariant
            v <= nv,
            nv == model.vertices@.len(),
            nt == model.triangles@.len(),
            model.wf(),
            forall|k: int|
                0 <= k < model.vertices@.len() ==> tan_vert_bounded(
                    #[trigger] model.vertices@[k],
                ),
            acc_t@.len() == nv,
            acc_b@.len() == nv,
            forall|k: int|
                0 <= k < nv ==> {
                    let a = #[trigger] acc_t@[k];
                    (a.0 as int, a.1 as int, a.2 as int) == accum(model, nt as int, k, true)
                },
            forall|k: int|
                0 <= k < nv ==> {
                    let a = #[trigger] acc_b@[k];
                    (a.0 as int, a.1 as int, a.2 as int) == accum(model, nt as int, k, false)
                },
            out@.len() == v,
            forall|k: int|
                0 <= k < v ==> #[trigger] out@[k] == spec_tangent_vert(model, k) && out@[k].bounded(),
            forall|k: int| 0 <= k < v ==> accum_usable(model, k, true),
            forall|k: int| 0 <= k < v ==> accum_usable(model, k, false),
            forall|ii: int, jj: int|
                0 <= ii < nt && 0 <= jj < 3 ==> crate::mat::spec_det3(
                    #[trigger] corner_system(model, ii, jj),
                ) != 0,
        decreases nv - v,
    {
        let at = acc_t[v];
        let ab = acc_b[v];
        let lim: i128 = 0x4000_0000 as i128;
        if at.0 < -lim || at.0 > lim || at.1 < -lim || at.1 > lim || at.2 < -lim || at.2 > lim {
            proof {
                assert(!accum_usable(model, v as int, true));
            }
            return Err(());
        }
        if ab.0 < -lim || ab.0 > lim || ab.1 < -lim || ab.1 > lim || ab.2 < -lim || ab.2 > lim {
            proof {
                assert(!accum_usable(model, v as int, false));
            }
            return Err(());
        }
        let tv = Vec3(at.0 as i64, at.1 as i64, at.2 as i64);
        let bv = Vec3(ab.0 as i64, ab.1 as i64, ab.2 as i64);
        if tv.len2() == 0 {
            proof {
                assert(!accum_usable(model, v as int, true));
            }
            return Err(());
        }
        if bv.len2() == 0 {
            proof {
                assert(!accum_usable(model, v as int, false));
            }
            return Err(());
        }
        proof {
            crate::vec::lemma_squares_nonneg(tv.0 as int, tv.1 as int, tv.2 as int);
            crate::vec::lemma_squares_nonneg(bv.0 as int, bv.1 as int, bv.2 as int);
            assert(accum_usable(model, v as int, true));
            assert(accum_usable(model, v as int, false));
        }
        let tn = tv.normalized();
        let bn = bv.normalized();
        let base = model.vertices[v];
        out.push(TanVert { pos: base.pos, tex: base.tex, norm: base.norm, tan: tn, bitan: bn });
        v = v + 1;
    }
    proof {
        assert(tangent_ok(model));
    }
    let outm = Model { vertices: out, triangles: model.triangles };
    Ok(outm)
}

} // verus!
