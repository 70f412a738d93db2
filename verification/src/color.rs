//! 24-bit RGB color values and their arithmetic.

use vstd::prelude::*;

verus! {

/// Number of fixed-point units that stand for 1.0 throughout the crate.
/// A quantity in "fx units" is an integer holding `value * FX_ONE`.
pub const FX_ONE: i64 = 65536;

/// A 24-bit pixel with one byte per channel.
#[derive(Debug, PartialEq, Eq, Structural, Clone, Copy)]
pub struct Color {
    pub b: u8,
    pub g: u8,
    pub r: u8,
}

/// The byte that a fixed-point intensity in `[0, FX_ONE]` maps to:
/// out-of-range values clamp, in-range values round to the nearest byte
/// (halves rounding up).
pub open spec fn spec_unit_byte(v: int) -> int {
    if v <= 0 {
        0
    } else if v >= FX_ONE {
        255
    } else {
        (v * 255 * 2 + FX_ONE) / (FX_ONE * 2)
    }
}

impl Color {
    /// Initializes a color with the given RGB values
    pub fn rgb(r: u8, g: u8, b: u8) -> (c: Self)
        ensures
            c.r == r && c.g == g && c.b == b,
    {
        Color { r: r, g: g, b: b }
    }

    /// The color of midnight
    pub fn black() -> (c: Self)
        ensures
            c.r == 0 && c.g == 0 && c.b == 0,
    {
        Color::rgb(0, 0, 0)
    }

    /// Like a beautiful dove
    pub fn white() -> (c: Self)
        ensures
            c.r == 255 && c.g == 255 && c.b == 255,
    {
        Color::rgb(255, 255, 255)
    }

    /// BLOOD!!!!
    pub fn red() -> (c: Self)
        ensures
            c.r == 255 && c.g == 0 && c.b == 0,
    {
        Color::rgb(255, 0, 0)
    }

    /// Looks like plants, except way brighter
    pub fn green() -> (c: Self)
        ensures
            c.r == 0 && c.g == 255 && c.b == 0,
    {
        Color::rgb(0, 255, 0)
    }

    /// Somewhere between the color of the ocean and the sky
    pub fn blue() -> (c: Self)
        ensures
            c.r == 0 && c.g == 0 && c.b == 255,
    {
        Color::rgb(0, 0, 255)
    }

    /// Construct a color from intensities in fx units, where `0` is black and
    /// `FX_ONE` is full brightness. Intensities below `0` clamp to `0`, above
    /// `FX_ONE` to `255`, and in-range values round to the nearest byte.
    pub fn fx_rgb(r: i64, g: i64, b: i64) -> (c: Self)
        ensures
            c.r == spec_unit_byte(r as int),
            c.g == spec_unit_byte(g as int),
            c.b == spec_unit_byte(b as int),
    {
        Color::rgb(Self::unit_byte(r), Self::unit_byte(g), Self::unit_byte(b))
    }

    /// Maps one fixed-point intensity to a byte as `spec_unit_byte` says.
    pub fn unit_byte(v: i64) -> (byte: u8)
        ensures
            byte == spec_unit_byte(v as int),
    {
        if v <= 0 {
            0
        } else if v >= FX_ONE {
            255
        } else {
            assert(0 < v < FX_ONE);
            let n: i64 = v * 255 * 2 + FX_ONE;
            let q: i64 = n / (FX_ONE * 2);
            assert(q <= 255 && q >= 0) by {
                assert(n <= (FX_ONE - 1) * 255 * 2 + FX_ONE);
            };
            q as u8
        }
    }

    /// Component-wise addition that clamps at 255 instead of wrapping.
    pub fn add(self, other: Color) -> (c: Color)
        ensures
            c.r == if self.r + other.r > 255 { 255int } else { self.r + other.r },
            c.g == if self.g + other.g > 255 { 255int } else { self.g + other.g },
            c.b == if self.b + other.b > 255 { 255int } else { self.b + other.b },
    {
        Color::rgb(
            Self::sat_add(self.r, other.r),
            Self::sat_add(self.g, other.g),
            Self::sat_add(self.b, other.b),
        )
    }

    fn sat_add(a: u8, b: u8) -> (c: u8)
        ensures
            c == if a + b > 255 { 255int } else { a + b },
    {
        let s: u16 = a as u16 + b as u16;
        if s > 255 {
            255
        } else {
            s as u8
        }
    }

    /// Multiplies two colors, treating the components as fixed point 0.8
    /// numbers, so 255 * 255 is 254, 128 * 128 is 64, and so on: each channel
    /// of the result is the product of the input channels divided by 256.
    pub fn mul(self, other: Color) -> (c: Color)
        ensures
            c.r == (self.r * other.r) / 256,
            c.g == (self.g * other.g) / 256,
            c.b == (self.b * other.b) / 256,
    {
        Color::rgb(
            Self::mul_byte(self.r, other.r),
            Self::mul_byte(self.g, other.g),
            Self::mul_byte(self.b, other.b),
        )
    }

    fn mul_byte(a: u8, b: u8) -> (c: u8)
        ensures
            c == (a * b) / 256,
    {
        let x: u16 = a as u16;
        let y: u16 = b as u16;
        assert(x * y <= 65025) by (nonlinear_arith)
            requires
                x <= 255 && y <= 255,
        ;
        let p: u16 = x * y;
        assert(p >> 8 == p / 256 && p / 256 < 256) by (bit_vector);
        (p >> 8) as u8
    }

    /// Scales every channel by a fixed-point factor in fx units, clamping the
    /// result to the byte range.
    pub fn scale(self, factor: i64) -> (c: Color)
        requires
            -0x7fff_ffff <= factor <= 0x7fff_ffff,
        ensures
            c.r == spec_scale_byte(self.r as int, factor as int),
            c.g == spec_scale_byte(self.g as int, factor as int),
            c.b == spec_scale_byte(self.b as int, factor as int),
    {
        Color::rgb(
            Self::scale_byte(self.r, factor),
            Self::scale_byte(self.g, factor),
            Self::scale_byte(self.b, factor),
        )
    }

    fn scale_byte(v: u8, factor: i64) -> (byte: u8)
        requires
            -0x7fff_ffff <= factor <= 0x7fff_ffff,
        ensures
            byte == spec_scale_byte(v as int, factor as int),
    {
        assert(v as int * factor <= 255 * 0x7fff_ffff && v as int * factor >= -255 * 0x7fff_ffff)
            by (nonlinear_arith)
            requires
                v <= 255 && -0x7fff_ffff <= factor <= 0x7fff_ffff,
        ;
        let scaled: i64 = v as i64 * factor;
        let q: i64 = scaled / FX_ONE;
        if q < 0 {
            0
        } else if q > 255 {
            255
        } else {
            q as u8
        }
    }
}

/// The byte that scaling the channel `v` by a fixed-point `factor` yields:
/// `v * factor` in fx units, truncated toward zero and clamped to `[0, 255]`.
pub open spec fn spec_scale_byte(v: int, factor: int) -> int {
    let q = (v * factor) / (FX_ONE as int);
    if q < 0 {
        0
    } else if q > 255 {
        255
    } else {
        q
    }
}

impl Default for Color {
    /// The default color is black.
    fn default() -> (c: Self)
        ensures
            c.r == 0 && c.g == 0 && c.b == 0,
    {
        Color::black()
    }
}

} // verus!
