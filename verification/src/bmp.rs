//! The uncompressed 24-bit BMP image format: encoding to bytes and
//! decoding from bytes. File I/O is the caller's business.

use vstd::prelude::*;
use crate::color::Color;
use crate::image::Image;
use crate::vec::lemma_mul_le;

verus! {

/// Total size of the file header plus the info header.
pub const FULL_HEADER_SIZE: usize = 54;

/// Size of the info header alone.
pub const DATA_HEADER_SIZE: usize = 40;

/// Bits per pixel: only 24-bit true color is supported.
pub const BPP: u16 = 24;

/// Print density written into the header.
pub const PIXELS_PER_METER: u32 = 2835;

/// Largest width or height the decoder accepts; keeps every buffer and
/// offset computation inside the machine's integer range.
pub const BMP_DIM_LIMIT: u32 = 0x4000;

/// What went wrong while decoding a BMP file.
#[derive(Debug, PartialEq, Eq, Structural, Clone, Copy)]
pub enum BmpError {
    /// The magic number should be BM
    Magic,
    /// Only 24 BPP is supported
    Bpp,
    /// The data ends before the headers or rows do
    Truncated,
    /// The stated dimensions do not fit in memory
    Size,
}

/// The little-endian bytes of a 32-bit value.
pub open spec fn spec_le32(v: u32) -> (u8, u8, u8, u8) {
    (
        (v % 256) as u8,
        ((v / 256) % 256) as u8,
        ((v / 65536) % 256) as u8,
        ((v / 16777216) % 256) as u8,
    )
}

/// The little-endian bytes of a 16-bit value.
pub open spec fn spec_le16(v: u16) -> (u8, u8) {
    ((v % 256) as u8, ((v / 256) % 256) as u8)
}

/// The 32-bit value read from four little-endian bytes.
pub open spec fn spec_read_le32(b0: u8, b1: u8, b2: u8, b3: u8) -> u32 {
    (b0 + b1 * 256 + b2 * 65536 + b3 * 16777216) as u32
}

/// The 16-bit value read from two little-endian bytes.
pub open spec fn spec_read_le16(b0: u8, b1: u8) -> u16 {
    (b0 + b1 * 256) as u16
}

/// Splits a 32-bit value into little-endian bytes.
pub fn le32(value: u32) -> (r: (u8, u8, u8, u8))
    ensures
        r == spec_le32(value),
        spec_read_le32(r.0, r.1, r.2, r.3) == value,
{
    let b0: u8 = (value % 256) as u8;
    let b1: u8 = ((value / 256) % 256) as u8;
    let b2: u8 = ((value / 65536) % 256) as u8;
    let b3: u8 = ((value / 16777216) % 256) as u8;
    proof {
        assert(b0 + b1 * 256 + b2 * 65536 + b3 * 16777216 == value) by (bit_vector)
            requires
                b0 == value % 256,
                b1 == (value / 256) % 256,
                b2 == (value / 65536) % 256,
                b3 == (value / 16777216) % 256,
        ;
    }
    (b0, b1, b2, b3)
}

/// Splits a 16-bit value into little-endian bytes.
pub fn le16(value: u16) -> (r: (u8, u8))
    ensures
        r == spec_le16(value),
        spec_read_le16(r.0, r.1) == value,
{
    let b0: u8 = (value % 256) as u8;
    let b1: u8 = ((value / 256) % 256) as u8;
    proof {
        assert(b0 + b1 * 256 == value) by (bit_vector)
            requires
                b0 == value % 256,
                b1 == (value / 256) % 256,
        ;
    }
    (b0, b1)
}

/// Reads a 32-bit little-endian value from the start of a slice.
pub fn read_le32(value: &[u8]) -> (r: u32)
    requires
        value@.len() >= 4,
    ensures
        r == spec_read_le32(value@[0], value@[1], value@[2], value@[3]),
{
    value[0] as u32 + value[1] as u32 * 256 + value[2] as u32 * 65536 + value[3] as u32 * 16777216
}

/// Reads a 16-bit little-endian value from the start of a slice.
pub fn read_le16(value: &[u8]) -> (r: u16)
    requires
        value@.len() >= 2,
    ensures
        r == spec_read_le16(value@[0], value@[1]),
{
    value[0] as u16 + value[1] as u16 * 256
}

/// Bytes per stored row: three per pixel, padded to a multiple of four.
pub open spec fn spec_row_size(w: int) -> int {
    ((w * 3 + 3) / 4) * 4
}

/// The 54 header bytes for a `w` by `h` image.
pub open spec fn bmp_header(w: int, h: int) -> Seq<u8> {
    let file_size = spec_le32((FULL_HEADER_SIZE + spec_row_size(w) * h) as u32);
    let data_size = spec_le32((spec_row_size(w) * h) as u32);
    let wle = spec_le32(w as u32);
    let hle = spec_le32(h as u32);
    let ppm = spec_le32(PIXELS_PER_METER);
    seq![
        66u8,
        77u8,
        file_size.0,
        file_size.1,
        file_size.2,
        file_size.3,
        0u8,
        0u8,
        0u8,
        0u8,
        54u8,
        0u8,
        0u8,
        0u8,
        40u8,
        0u8,
        0u8,
        0u8,
        wle.0,
        wle.1,
        wle.2,
        wle.3,
        hle.0,
        hle.1,
        hle.2,
        hle.3,
        1u8,
        0u8,
        24u8,
        0u8,
        0u8,
        0u8,
        0u8,
        0u8,
        data_size.0,
        data_size.1,
        data_size.2,
        data_size.3,
        ppm.0,
        ppm.1,
        ppm.2,
        ppm.3,
        ppm.0,
        ppm.1,
        ppm.2,
        ppm.3,
        0u8,
        0u8,
        0u8,
        0u8,
        0u8,
        0u8,
        0u8,
        0u8,
    ]
}

/// The byte stored at column-offset `c` of the row holding image row `y`:
/// blue, green, red for each pixel in turn, and zero padding at the end.
pub open spec fn row_byte(img: Image<Color>, y: int, c: int) -> u8 {
    if c < img.width * 3 {
        let p = img.pix(c / 3, y);
        if c % 3 == 0 {
            p.b
        } else if c % 3 == 1 {
            p.g
        } else {
            p.r
        }
    } else {
        0
    }
}


/// Writes the 54 header bytes.
#[verifier::rlimit(100)]
fn push_header(w: usize, h: usize, total: usize, row_size: usize) -> (out: Vec<u8>)
    requires
        w <= BMP_DIM_LIMIT,
        h <= BMP_DIM_LIMIT,
        row_size == spec_row_size(w as int),
        total == FULL_HEADER_SIZE + spec_row_size(w as int) * h,
        total <= u32::MAX,
    ensures
        out@ == bmp_header(w as int, h as int),
        out@.len() == FULL_HEADER_SIZE,
{
    proof {
        crate::vec::lemma_mul_le(row_size as int, h as int, 0xC004, BMP_DIM_LIMIT as int);
    }
    let file_size = le32(total as u32);
    let data_size = le32((row_size * h) as u32);
    let wle = le32(w as u32);
    let hle = le32(h as u32);
    let ppm = le32(PIXELS_PER_METER);
    let mut out: Vec<u8> = Vec::new();
    out.push(66);
    out.push(77);
    out.push(file_size.0);
    out.push(file_size.1);
    out.push(file_size.2);
    out.push(file_size.3);
    out.push(0);
    out.push(0);
    out.push(0);
    out.push(0);
    out.push(54);
    out.push(0);
    out.push(0);
    out.push(0);
    out.push(40);
    out.push(0);
    out.push(0);
    out.push(0);
    out.push(wle.0);
    out.push(wle.1);
    out.push(wle.2);
    out.push(wle.3);
    out.push(hle.0);
    out.push(hle.1);
    out.push(hle.2);
    out.push(hle.3);
    out.push(1);
    out.push(0);
    out.push(24);
    out.push(0);
    out.push(0);
    out.push(0);
    out.push(0);
    out.push(0);
    out.push(data_size.0);
    out.push(data_size.1);
    out.push(data_size.2);
    out.push(data_size.3);
    out.push(ppm.0);
    out.push(ppm.1);
    out.push(ppm.2);
    out.push(ppm.3);
    out.push(ppm.0);
    out.push(ppm.1);
    out.push(ppm.2);
    out.push(ppm.3);
    out.push(0);
    out.push(0);
    out.push(0);
    out.push(0);
    out.push(0);
    out.push(0);
    out.push(0);
    out.push(0);
    proof {
        assert(out@ =~= bmp_header(w as int, h as int));
    }
    out
}

/// Encodes an image as an uncompressed 24-bit BMP file: the 54 header
/// bytes, then the rows bottom to top, each padded to four bytes.
pub fn write_bmp(image: &Image<Color>) -> (out: Vec<u8>)
    requires
        image.wf(),
        image.width <= BMP_DIM_LIMIT,
        image.height <= BMP_DIM_LIMIT,
    ensures
        out@.len() == FULL_HEADER_SIZE + spec_row_size(image.width as int) * image.height,
        out@.subrange(0, FULL_HEADER_SIZE as int) == bmp_header(
            image.width as int,
            image.height as int,
        ),
        forall|r: int, c: int|
            0 <= r < image.height && 0 <= c < spec_row_size(image.width as int)
                ==> #[trigger] out@[FULL_HEADER_SIZE + r * spec_row_size(image.width as int) + c]
                == row_byte(*image, image.height - 1 - r, c),
{
    let w = image.width;
    let h = image.height;
    let row_size: usize = ((w * 3 + 3) / 4) * 4;
    proof {
        assert(row_size == spec_row_size(w as int));
        lemma_mul_le(row_size as int, h as int, 0xC004, BMP_DIM_LIMIT as int);
    }
    let total: usize = FULL_HEADER_SIZE + row_size * h;
    let mut out: Vec<u8> = push_header(w, h, total, row_size);
    proof {
        assert(out@.len() == 54);
    }
    let mut r: usize = 0;
    while r < h
        invariant
            r <= h,
            w == image.width,
            h == image.height,
            image.wf(),
            w <= BMP_DIM_LIMIT,
            h <= BMP_DIM_LIMIT,
            row_size == spec_row_size(w as int),
            row_size <= 0xC004,
            out@.len() == FULL_HEADER_SIZE + r * row_size,
            out@.subrange(0, FULL_HEADER_SIZE as int) == bmp_header(w as int, h as int),
            forall|rr: int, c: int|
                0 <= rr < r && 0 <= c < row_size ==> #[trigger] out@[FULL_HEADER_SIZE + rr
                    * row_size + c] == row_byte(*image, h - 1 - rr, c),
        decreases h - r,
    {
        let y = h - 1 - r;
        let ghost out_pre = out@;
        let mut c: usize = 0;
        while c < row_size
            invariant
                c <= row_size,
                w == image.width,
                h == image.height,
                image.wf(),
                w <= BMP_DIM_LIMIT,
                h <= BMP_DIM_LIMIT,
                r < h,
                y == h - 1 - r,
                row_size == spec_row_size(w as int),
                row_size <= 0xC004,
                out_pre.len() == FULL_HEADER_SIZE + r * row_size,
                out@.len() == out_pre.len() + c,
                out@.subrange(0, out_pre.len() as int) == out_pre,
                forall|cc: int|
                    0 <= cc < c ==> out@[out_pre.len() + cc] == row_byte(*image, y as int, cc),
            decreases row_size - c,
        {
            let byte: u8 = if c < w * 3 {
                let px = c / 3;
                proof {
                    assert(px < w) by (nonlinear_arith)
                        requires
                            px == c / 3,
                            c < w * 3,
                            w >= 0,
                    ;
                }
                let p = image.get(px, y);
                let ch = c % 3;
                if ch == 0 {
                    p.b
                } else if ch == 1 {
                    p.g
                } else {
                    p.r
                }
            } else {
                0
            };
            out.push(byte);
            proof {
                assert(out@.subrange(0, out_pre.len() as int) =~= out_pre);
            }
            c = c + 1;
        }
        proof {
            assert(out@.subrange(0, FULL_HEADER_SIZE as int) =~= bmp_header(w as int, h as int));
            assert((r + 1) * row_size == r * row_size + row_size) by (nonlinear_arith);
            assert forall|rr: int, cc: int|
                0 <= rr < r + 1 && 0 <= cc < row_size implies #[trigger] out@[FULL_HEADER_SIZE + rr
                * row_size + cc] == row_byte(*image, h - 1 - rr, cc) by {
                if rr < r {
                    assert(out_pre[FULL_HEADER_SIZE + rr * row_size + cc] == row_byte(
                        *image,
                        h - 1 - rr,
                        cc,
                    ));
                    assert(FULL_HEADER_SIZE + rr * row_size + cc < out_pre.len()) by (nonlinear_arith)
                        requires
                            0 <= rr < r,
                            0 <= cc < row_size,
                            out_pre.len() == FULL_HEADER_SIZE + r * row_size,
                            row_size >= 0,
                    ;
                    assert(out@[FULL_HEADER_SIZE + rr * row_size + cc] == out_pre[FULL_HEADER_SIZE
                        + rr * row_size + cc]);
                } else {
                    assert(out@[out_pre.len() + cc] == row_byte(*image, y as int, cc));
                }
            };
        }
        r = r + 1;
    }
    proof {
        assert(out@.len() == FULL_HEADER_SIZE + h * row_size);
        assert(h * row_size == row_size * h) by (nonlinear_arith);
    }
    out
}

/// Decodes an uncompressed 24-bit BMP file. The magic number must read
/// `BM`, the bit depth must be 24, and the data must hold all the rows the
/// header promises; each failure is reported by its own error.
/// The file header is intact: the bytes reach past both headers, the
/// magic number reads `BM`, and the bit depth field says 24.
pub open spec fn bmp_header_ok(bytes: Seq<u8>) -> bool {
    &&& bytes.len() >= FULL_HEADER_SIZE
    &&& bytes[0] == 66 && bytes[1] == 77
    &&& spec_read_le16(bytes[28], bytes[29]) == BPP
}

/// The width and height fields of the file.
pub open spec fn bmp_dims(bytes: Seq<u8>) -> (u32, u32) {
    (
        spec_read_le32(bytes[18], bytes[19], bytes[20], bytes[21]),
        spec_read_le32(bytes[22], bytes[23], bytes[24], bytes[25]),
    )
}

/// The whole file decodes: the header is intact, the dimensions are
/// within the supported bound, and the data holds every row the header
/// promises.
pub open spec fn bmp_decodes(bytes: Seq<u8>) -> bool {
    &&& bmp_header_ok(bytes)
    &&& bmp_dims(bytes).0 <= BMP_DIM_LIMIT
    &&& bmp_dims(bytes).1 <= BMP_DIM_LIMIT
    &&& bytes.len() >= FULL_HEADER_SIZE + spec_row_size(bmp_dims(bytes).0 as int) * bmp_dims(
        bytes,
    ).1
}

pub fn read_bmp(bytes: &[u8]) -> (r: Result<Image<Color>, BmpError>)
    ensures
        bmp_decodes(bytes@) ==> (r matches Ok(img) && {
            &&& img.wf()
            &&& bytes@.len() >= FULL_HEADER_SIZE
            &&& bytes@[0] == 66 && bytes@[1] == 77
            &&& img.width == spec_read_le32(bytes@[18], bytes@[19], bytes@[20], bytes@[21])
            &&& img.height == spec_read_le32(bytes@[22], bytes@[23], bytes@[24], bytes@[25])
            &&& spec_read_le16(bytes@[28], bytes@[29]) == BPP
            &&& forall|x: int, y: int|
                0 <= x < img.width && 0 <= y < img.height ==> {
                    let base = FULL_HEADER_SIZE + (img.height - 1 - y) * spec_row_size(
                        img.width as int,
                    ) + 3 * x;
                    #[trigger] img.pix(x, y) == (Color {
                        b: bytes@[base],
                        g: bytes@[base + 1],
                        r: bytes@[base + 2],
                    })
                }
        }),
        bytes@.len() < FULL_HEADER_SIZE ==> r == Err::<Image<Color>, BmpError>(
            BmpError::Truncated,
        ),
        bytes@.len() >= FULL_HEADER_SIZE && !(bytes@[0] == 66 && bytes@[1] == 77) ==> r == Err::<
            Image<Color>,
            BmpError,
        >(BmpError::Magic),
        bytes@.len() >= FULL_HEADER_SIZE && bytes@[0] == 66 && bytes@[1] == 77 && spec_read_le16(
            bytes@[28],
            bytes@[29],
        ) != BPP ==> r == Err::<Image<Color>, BmpError>(BmpError::Bpp),
        bmp_header_ok(bytes@) && !(bmp_dims(bytes@).0 <= BMP_DIM_LIMIT && bmp_dims(bytes@).1
            <= BMP_DIM_LIMIT) ==> r == Err::<Image<Color>, BmpError>(BmpError::Size),
        bmp_header_ok(bytes@) && bmp_dims(bytes@).0 <= BMP_DIM_LIMIT && bmp_dims(bytes@).1
            <= BMP_DIM_LIMIT && bytes@.len() < FULL_HEADER_SIZE + spec_row_size(
            bmp_dims(bytes@).0 as int,
        ) * bmp_dims(bytes@).1 ==> r == Err::<Image<Color>, BmpError>(BmpError::Truncated),
{
    if bytes.len() < FULL_HEADER_SIZE {
        return Err(BmpError::Truncated);
    }
    if bytes[0] != 66 || bytes[1] != 77 {
        return Err(BmpError::Magic);
    }
    let bpp = read_le16(vstd::slice::slice_subrange(bytes, 28, 30));
    if bpp != BPP {
        return Err(BmpError::Bpp);
    }
    let width32 = read_le32(vstd::slice::slice_subrange(bytes, 18, 22));
    let height32 = read_le32(vstd::slice::slice_subrange(bytes, 22, 26));
    if width32 > BMP_DIM_LIMIT || height32 > BMP_DIM_LIMIT {
        return Err(BmpError::Size);
    }
    let w = width32 as usize;
    let h = height32 as usize;
    let row_size: usize = ((w * 3 + 3) / 4) * 4;
    proof {
        assert(row_size == spec_row_size(w as int));
        lemma_mul_le(row_size as int, h as int, 0xC004, BMP_DIM_LIMIT as int);
        lemma_mul_le(w as int, h as int, BMP_DIM_LIMIT as int, BMP_DIM_LIMIT as int);
    }
    let need: usize = FULL_HEADER_SIZE + row_size * h;
    if bytes.len() < need {
        return Err(BmpError::Truncated);
    }
    let mut img: Image<Color> = Image::filled(w, h, Color::black());
    let mut y: usize = 0;
    while y < h
        invariant
            y <= h,
            img.wf(),
            img.width == w,
            img.height == h,
            w <= BMP_DIM_LIMIT,
            h <= BMP_DIM_LIMIT,
            row_size == spec_row_size(w as int),
            row_size <= 0xC004,
            bytes@.len() >= FULL_HEADER_SIZE + row_size * h,
            bytes@.len() <= usize::MAX,
            forall|x: int, yy: int|
                0 <= x < w && 0 <= yy < y ==> {
                    let base = FULL_HEADER_SIZE + (h - 1 - yy) * spec_row_size(w as int) + 3 * x;
                    #[trigger] img.pix(x, yy) == (Color {
                        b: bytes@[base],
                        g: bytes@[base + 1],
                        r: bytes@[base + 2],
                    })
                },
        decreases h - y,
    {
        let mut x: usize = 0;
        proof {
            assert((h - 1 - y) * row_size <= h * row_size && 0 <= (h - 1 - y) * row_size)
                by (nonlinear_arith)
                requires
                    0 <= h - 1 - y < h,
                    row_size >= 0,
                    h >= 0,
            ;
            assert(h * row_size == row_size * h) by (nonlinear_arith);
            assert(h * row_size <= BMP_DIM_LIMIT as int * 0xC004) by (nonlinear_arith)
                requires
                    0 <= h <= BMP_DIM_LIMIT,
                    0 <= row_size <= 0xC004,
            ;
            assert((h - 1 - y) * row_size + row_size <= h * row_size) by (nonlinear_arith)
                requires
                    0 <= h - 1 - y < h,
                    row_size >= 0,
            ;
        }
        let row_base: usize = FULL_HEADER_SIZE + (h - 1 - y) * row_size;
        while x < w
            invariant
                x <= w,
                y < h,
                img.wf(),
                img.width == w,
                img.height == h,
                w <= BMP_DIM_LIMIT,
                h <= BMP_DIM_LIMIT,
                row_size == spec_row_size(w as int),
                row_size <= 0xC004,
                row_base == FULL_HEADER_SIZE + (h - 1 - y) * row_size,
                row_base + row_size <= bytes@.len(),
                bytes@.len() >= FULL_HEADER_SIZE + row_size * h,
                bytes@.len() <= usize::MAX,
                forall|xx: int, yy: int|
                    0 <= xx < w && 0 <= yy < y ==> {
                        let base = FULL_HEADER_SIZE + (h - 1 - yy) * spec_row_size(w as int) + 3
                            * xx;
                        #[trigger] img.pix(xx, yy) == (Color {
                            b: bytes@[base],
                            g: bytes@[base + 1],
                            r: bytes@[base + 2],
                        })
                    },
                forall|xx: int|
                    0 <= xx < x ==> {
                        let base = FULL_HEADER_SIZE + (h - 1 - y) * spec_row_size(w as int) + 3
                            * xx;
                        #[trigger] img.pix(xx, y as int) == (Color {
                            b: bytes@[base],
                            g: bytes@[base + 1],
                            r: bytes@[base + 2],
                        })
                    },
            decreases w - x,
        {
            proof {
                assert(3 * x + 2 < row_size) by (nonlinear_arith)
                    requires
                        0 <= x < w,
                        row_size == ((w * 3 + 3) / 4) * 4,
                        w >= 1,
                ;
            }
            let b = bytes[row_base + 3 * x];
            let g = bytes[row_base + 3 * x + 1];
            let rr = bytes[row_base + 3 * x + 2];
            img.set(x, y, Color { b: b, g: g, r: rr });
            x = x + 1;
        }
        y = y + 1;
    }
    Ok(img)
}

/// Little-endian split and read invert one another.
pub proof fn lemma_le32_roundtrip(v: u32)
    ensures
        ({
            let b = spec_le32(v);
            spec_read_le32(b.0, b.1, b.2, b.3) == v
        }),
{
    let b0: u8 = (v % 256) as u8;
    let b1: u8 = ((v / 256) % 256) as u8;
    let b2: u8 = ((v / 65536) % 256) as u8;
    let b3: u8 = ((v / 16777216) % 256) as u8;
    assert(b0 + b1 * 256 + b2 * 65536 + b3 * 16777216 == v) by (bit_vector)
        requires
            b0 == v % 256,
            b1 == (v / 256) % 256,
            b2 == (v / 65536) % 256,
            b3 == (v / 16777216) % 256,
    ;
}

/// A stored row is at least wide enough for its pixels.
pub proof fn lemma_row_size_ge(w: int)
    requires
        w >= 0,
    ensures
        spec_row_size(w) >= 3 * w,
        spec_row_size(w) >= 0,
{
    vstd::arithmetic::div_mod::lemma_fundamental_div_mod(w * 3 + 3, 4);
    vstd::arithmetic::div_mod::lemma_mod_bound(w * 3 + 3, 4);
    vstd::arithmetic::div_mod::lemma_div_pos_is_pos(w * 3 + 3, 4);
    let q = (w * 3 + 3) / 4;
    assert(4 * q == w * 3 + 3 - (w * 3 + 3) % 4);
    assert(q * 4 == 4 * q) by (nonlinear_arith);
}

/// Decoding what `write_bmp` encoded gives the image back: the bytes that
/// `write_bmp` promises decode, their header fields name the image's
/// dimensions, and every decoded pixel equals the encoded one.
pub proof fn lemma_bmp_round_trip(img: Image<Color>, out: Seq<u8>)
    requires
        img.wf(),
        img.width <= BMP_DIM_LIMIT,
        img.height <= BMP_DIM_LIMIT,
        out.len() == FULL_HEADER_SIZE + spec_row_size(img.width as int) * img.height,
        out.subrange(0, FULL_HEADER_SIZE as int) == bmp_header(img.width as int, img.height as int),
        forall|r: int, c: int|
            0 <= r < img.height && 0 <= c < spec_row_size(img.width as int)
                ==> #[trigger] out[FULL_HEADER_SIZE + r * spec_row_size(img.width as int) + c]
                == row_byte(img, img.height - 1 - r, c),
    ensures
        bmp_decodes(out),
        bmp_dims(out).0 == img.width,
        bmp_dims(out).1 == img.height,
        forall|x: int, y: int|
            0 <= x < img.width && 0 <= y < img.height ==> {
                let base = FULL_HEADER_SIZE + (img.height - 1 - y) * spec_row_size(
                    img.width as int,
                ) + 3 * x;
                #[trigger] img.pix(x, y) == (Color {
                    b: out[base],
                    g: out[base + 1],
                    r: out[base + 2],
                })
            },
{
    let w = img.width as int;
    let h = img.height as int;
    let hdr = bmp_header(w, h);
    let rs = spec_row_size(w);
    lemma_row_size_ge(w);
    assert(out.len() >= FULL_HEADER_SIZE) by {
        crate::vec::lemma_mul_le(rs, h, 0xC004, BMP_DIM_LIMIT as int);
        assert(rs * h >= 0) by (nonlinear_arith)
            requires
                rs >= 0,
                h >= 0,
        ;
    };
    assert(forall|k: int| 0 <= k < 54 ==> out[k] == #[trigger] hdr[k]) by {
        assert(forall|k: int|
            0 <= k < 54 ==> out.subrange(0, 54)[k] == #[trigger] out[k]);
    };
    let wle = spec_le32(w as u32);
    let hle = spec_le32(h as u32);
    lemma_le32_roundtrip(w as u32);
    lemma_le32_roundtrip(h as u32);
    assert(out[0] == 66 && out[1] == 77);
    assert(out[28] == 24 && out[29] == 0);
    assert(spec_read_le16(out[28], out[29]) == BPP);
    assert(out[18] == wle.0 && out[19] == wle.1 && out[20] == wle.2 && out[21] == wle.3);
    assert(out[22] == hle.0 && out[23] == hle.1 && out[24] == hle.2 && out[25] == hle.3);
    assert(bmp_dims(out).0 == img.width && bmp_dims(out).1 == img.height);
    assert(bmp_decodes(out));
    assert forall|x: int, y: int| 0 <= x < img.width && 0 <= y < img.height implies {
        let base = FULL_HEADER_SIZE + (h - 1 - y) * rs + 3 * x;
        #[trigger] img.pix(x, y) == (Color { b: out[base], g: out[base + 1], r: out[base + 2] })
    } by {
        let r = h - 1 - y;
        vstd::arithmetic::div_mod::lemma_fundamental_div_mod_converse(3 * x, 3, x, 0);
        vstd::arithmetic::div_mod::lemma_fundamental_div_mod_converse(3 * x + 1, 3, x, 1);
        vstd::arithmetic::div_mod::lemma_fundamental_div_mod_converse(3 * x + 2, 3, x, 2);
        assert(3 * x + 2 < rs) by (nonlinear_arith)
            requires
                0 <= x < w,
                rs >= 3 * w,
        ;
        assert(out[FULL_HEADER_SIZE + r * rs + (3 * x)] == row_byte(img, h - 1 - r, 3 * x));
        assert(out[FULL_HEADER_SIZE + r * rs + (3 * x + 1)] == row_byte(img, h - 1 - r, 3 * x + 1));
        assert(out[FULL_HEADER_SIZE + r * rs + (3 * x + 2)] == row_byte(img, h - 1 - r, 3 * x + 2));
        assert(row_byte(img, y, 3 * x) == img.pix(x, y).b);
        assert(row_byte(img, y, 3 * x + 1) == img.pix(x, y).g);
        assert(row_byte(img, y, 3 * x + 2) == img.pix(x, y).r);
    };
}

} // verus!
