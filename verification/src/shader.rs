//! Concrete shaders: flat color, and a texture-coordinate checkerboard.

use vstd::prelude::*;
use crate::color::{Color, FX_ONE};
use crate::model::Vert;
use crate::renderer::{Shader, clip_ok};
use crate::vec::{Vec3, Vec4, RASTER_LIMIT};

verus! {

/// A coordinate clamped into the raster range.
pub open spec fn spec_clamp_coord(v: int) -> int {
    if v > RASTER_LIMIT {
        RASTER_LIMIT as int
    } else if v < -RASTER_LIMIT {
        -RASTER_LIMIT as int
    } else {
        v
    }
}

fn clamp_coord(v: i64) -> (r: i64)
    ensures
        r == spec_clamp_coord(v as int),
{
    if v > RASTER_LIMIT {
        RASTER_LIMIT
    } else if v < -RASTER_LIMIT {
        -RASTER_LIMIT
    } else {
        v
    }
}

/// A shader that takes vertex positions as screen coordinates already and
/// paints every covered pixel in the single color handed in as the
/// uniform value.
#[derive(Debug, Clone, Copy)]
pub struct FlatShader;

impl Shader<Vec3, Color> for FlatShader {
    type VOut = Vec3;

    open spec fn vertex_spec(&self, v: Vec3, u: Color) -> (Vec4, Vec3) {
        (
            Vec4(
                spec_clamp_coord(v.0 as int) as i64,
                spec_clamp_coord(v.1 as int) as i64,
                spec_clamp_coord(v.2 as int) as i64,
                1,
            ),
            v,
        )
    }

    open spec fn fragment_spec(&self, v: Vec3, u: Color) -> Color {
        u
    }

    fn vertex(&self, v: Vec3, uniform: &Color) -> (r: (Vec4, Vec3)) {
        (Vec4(clamp_coord(v.0), clamp_coord(v.1), clamp_coord(v.2), 1), v)
    }

    fn fragment(&self, input: Vec3, uniform: &Color) -> (c: Color) {
        *uniform
    }
}

/// The checker cell parity at a texture coordinate in fx units: cells are
/// half a texture wide, and the two colors alternate.
pub open spec fn spec_checker_even(u: int, v: int) -> bool {
    (crate::fx::spec_tdiv(u * 2, FX_ONE as int) + crate::fx::spec_tdiv(v * 2, FX_ONE as int)) % 2
        == 0
}

/// A shader that takes vertex positions as screen coordinates and paints
/// each pixel by a two-by-two checkerboard over its interpolated texture
/// coordinates: red on even cells, blue on odd ones.
#[derive(Debug, Clone, Copy)]
pub struct CheckerShader;

impl Shader<Vert, Color> for CheckerShader {
    type VOut = Vert;

    open spec fn vertex_spec(&self, v: Vert, u: Color) -> (Vec4, Vert) {
        (
            Vec4(
                spec_clamp_coord(v.pos.0 as int) as i64,
                spec_clamp_coord(v.pos.1 as int) as i64,
                spec_clamp_coord(v.pos.2 as int) as i64,
                1,
            ),
            v,
        )
    }

    open spec fn fragment_spec(&self, v: Vert, u: Color) -> Color {
        if spec_checker_even(v.tex.0 as int, v.tex.1 as int) {
            Color { r: 255, g: 0, b: 0 }
        } else {
            Color { r: 0, g: 0, b: 255 }
        }
    }

    fn vertex(&self, v: Vert, uniform: &Color) -> (r: (Vec4, Vert)) {
        (
            Vec4(clamp_coord(v.pos.0), clamp_coord(v.pos.1), clamp_coord(v.pos.2), 1),
            v,
        )
    }

    fn fragment(&self, input: Vert, uniform: &Color) -> (c: Color) {
        let cu = crate::fx::tdiv(input.tex.0 * 2, FX_ONE);
        let cv = crate::fx::tdiv(input.tex.1 * 2, FX_ONE);
        proof {
            crate::vec::lemma_mul_le(input.tex.0 as int, 2, crate::vec::VEC_LIMIT as int, 2);
            crate::vec::lemma_mul_le(input.tex.1 as int, 2, crate::vec::VEC_LIMIT as int, 2);
        }
        let s: i64 = cu + cv;
        let even = s % 2 == 0;
        if even {
            Color::red()
        } else {
            Color::blue()
        }
    }
}

} // verus!
