//! Encoding an image as a BMP file: a 54-byte header, then top-down BGR
//! pixel rows (the header stores the height negated to mark the order), each
//! row padded to a multiple of four bytes.

use crate::colour::Colour;
use crate::image::{chan_byte, chan_to_u8, Image};
use vstd::arithmetic::div_mod::lemma_fundamental_div_mod_converse;
use vstd::prelude::*;

verus! {

/// Byte `k` (0 = lowest) of a 32-bit little-endian value.
pub open spec fn le_byte(n: int, k: int) -> int {
    if k == 0 {
        n % 256
    } else if k == 1 {
        (n / 256) % 256
    } else if k == 2 {
        (n / 65536) % 256
    } else {
        (n / 16777216) % 256
    }
}

/// The 32-bit two's-complement encoding of `-h` (the header stores the
/// height negated, which marks the rows as top-down).
pub open spec fn neg32(h: int) -> int {
    if h == 0 {
        0
    } else {
        0x1_0000_0000 - h
    }
}

/// Bytes of one padded pixel row.
pub open spec fn bmp_row(w: int) -> int {
    3 * w + w % 4
}

/// Bytes of the whole pixel array.
pub open spec fn bmp_size(w: int, h: int) -> int {
    h * bmp_row(w)
}

/// The 54 header bytes: magic, file size, data offset 54, info-header size
/// 40, extent, one plane of 24 bits per pixel, no compression, array size.
pub open spec fn bmp_header(w: int, h: int) -> Seq<u8> {
    let fs = bmp_size(w, h) + 54;
    seq![
        66u8,
        77u8,
        le_byte(fs, 0) as u8,
        le_byte(fs, 1) as u8,
        le_byte(fs, 2) as u8,
        le_byte(fs, 3) as u8,
        0u8,
        0u8,
        0u8,
        0u8,
        54u8,
        0u8,
        0u8,
        0u8,
        40u8,
        0u8,
        0u8,
        0u8,
        le_byte(w, 0) as u8,
        le_byte(w, 1) as u8,
        le_byte(w, 2) as u8,
        le_byte(w, 3) as u8,
        le_byte(neg32(h), 0) as u8,
        le_byte(neg32(h), 1) as u8,
        le_byte(neg32(h), 2) as u8,
        le_byte(neg32(h), 3) as u8,
        1u8,
        0u8,
        24u8,
        0u8,
        0u8,
        0u8,
        0u8,
        0u8,
        le_byte(bmp_size(w, h), 0) as u8,
        le_byte(bmp_size(w, h), 1) as u8,
        le_byte(bmp_size(w, h), 2) as u8,
        le_byte(bmp_size(w, h), 3) as u8,
        0u8,
        0u8,
        0u8,
        0u8,
        0u8,
        0u8,
        0u8,
        0u8,
        0u8,
        0u8,
        0u8,
        0u8,
        0u8,
        0u8,
        0u8,
        0u8,
    ]
}

/// The byte at offset `i` of the encoded file: a header byte, or - resolving
/// `i` into a row, a column and a channel - a pixel's blue, green or red
/// byte, or row padding.
pub open spec fn bmp_byte(w: int, h: int, data: Seq<Colour>, i: int) -> int {
    if i < 54 {
        bmp_header(w, h)[i] as int
    } else {
        let off = i - 54;
        let y = off / bmp_row(w);
        let c = off % bmp_row(w);
        if c < 3 * w {
            let x = c / 3;
            let ch = c % 3;
            let px = data[x + w * y];
            if ch == 0 {
                chan_to_u8(px.b as int)
            } else if ch == 1 {
                chan_to_u8(px.g as int)
            } else {
                chan_to_u8(px.r as int)
            }
        } else {
            0
        }
    }
}

/// Append the little-endian bytes of a 32-bit value.
fn push_u32_le(v: &mut Vec<u8>, n: u32)
    ensures
        final (v)@.len() == old(v)@.len() + 4,
        forall|j: int| 0 <= j < old(v)@.len() ==> final (v)@[j] == old(v)@[j],
        final (v)@[old(v)@.len() as int + 0] == le_byte(n as int, 0),
        final (v)@[old(v)@.len() as int + 1] == le_byte(n as int, 1),
        final (v)@[old(v)@.len() as int + 2] == le_byte(n as int, 2),
        final (v)@[old(v)@.len() as int + 3] == le_byte(n as int, 3),
{
    v.push((n % 256) as u8);
    v.push(((n / 256) % 256) as u8);
    v.push(((n / 65536) % 256) as u8);
    v.push(((n / 16777216) % 256) as u8);
}

/// The offset a pixel byte is pushed at resolves back to its row, column
/// and channel.
proof fn lemma_pixel_offset(w: int, y: int, x: int, ch: int)
    requires
        0 <= x < w,
        0 <= ch < 3,
        0 <= y,
    ensures
        (y * bmp_row(w) + 3 * x + ch) / bmp_row(w) == y,
        (y * bmp_row(w) + 3 * x + ch) % bmp_row(w) == 3 * x + ch,
        (3 * x + ch) / 3 == x,
        (3 * x + ch) % 3 == ch,
{
    let row = bmp_row(w);
    assert(w % 4 >= 0);
    assert(3 * x + ch < row);
    lemma_fundamental_div_mod_converse(y * row + 3 * x + ch, row, y, 3 * x + ch);
    lemma_fundamental_div_mod_converse(3 * x + ch, 3, x, ch);
}

/// The offset a padding byte is pushed at resolves back to its row and to a
/// column past the pixel bytes.
proof fn lemma_pad_offset(w: int, y: int, k: int)
    requires
        0 <= k < w % 4,
        0 <= w,
        0 <= y,
    ensures
        (y * bmp_row(w) + 3 * w + k) / bmp_row(w) == y,
        (y * bmp_row(w) + 3 * w + k) % bmp_row(w) == 3 * w + k,
{
    let row = bmp_row(w);
    lemma_fundamental_div_mod_converse(y * row + 3 * w + k, row, y, 3 * w + k);
}

/// Row arithmetic used while walking the rows.
proof fn lemma_row_step(y: int, row: int, h: int)
    requires
        0 <= y < h,
        row >= 0,
    ensures
        (y + 1) * row <= h * row,
        y * row >= 0,
        (y + 1) * row == y * row + row,
{
    assert((y + 1) * row <= h * row) by (nonlinear_arith)
        requires
            y + 1 <= h,
            row >= 0,
    ;
    assert(y * row >= 0) by (nonlinear_arith)
        requires
            y >= 0,
            row >= 0,
    ;
    assert((y + 1) * row == y * row + row) by (nonlinear_arith);
}

/// The BMP encoder.
pub struct Bmp {}

impl Bmp {
    /// Encode the image: byte `i` of the result is exactly `bmp_byte` of
    /// `i` - the 54 header bytes, then each row's blue/green/red triples in
    /// `x` order followed by its zero padding. Returns the bytes; writing
    /// them anywhere is the caller's business.
    pub fn encode(image: &Image) -> (out: Vec<u8>)
        requires
            image.wf(),
            bmp_row(image.width as int) <= u32::MAX,
            54 + bmp_size(image.width as int, image.height as int) <= u32::MAX,
        ensures
            out@.len() == 54 + bmp_size(image.width as int, image.height as int),
            forall|i: int|
                0 <= i < out@.len() ==> #[trigger] out@[i] == bmp_byte(
                    image.width as int,
                    image.height as int,
                    image.data@,
                    i,
                ),
            out@.subrange(0, 54) == bmp_header(image.width as int, image.height as int),
    {
        let w = image.width;
        let h = image.height;
        let extra = w % 4;
        let row: u32 = 3 * w + extra;
        let pas: u32 = h * row;
        proof {
            lemma_bmp_sizes(w as int, h as int);
        }
        let mut out: Vec<u8> = Vec::new();
        out.push(66);
        out.push(77);
        push_u32_le(&mut out, pas + 54);
        push_u32_le(&mut out, 0);
        push_u32_le(&mut out, 54);
        push_u32_le(&mut out, 40);
        push_u32_le(&mut out, w);
        let hneg: u32 = if h == 0 {
            0
        } else {
            (u32::MAX - h) + 1
        };
        push_u32_le(&mut out, hneg);
        out.push(1);
        out.push(0);
        out.push(24);
        out.push(0);
        push_u32_le(&mut out, 0);
        push_u32_le(&mut out, pas);
        push_u32_le(&mut out, 0);
        push_u32_le(&mut out, 0);
        push_u32_le(&mut out, 0);
        push_u32_le(&mut out, 0);
        proof {
            assert(out@ =~= bmp_header(w as int, h as int));
        }
        let mut y: u32 = 0;
        while y < h
            invariant
                0 <= y <= h,
                w == image.width,
                h == image.height,
                image.wf(),
                row as int == bmp_row(w as int),
                extra == w % 4,
                54 + bmp_size(w as int, h as int) <= u32::MAX,
                h as int * row as int == bmp_size(w as int, h as int),
                out@.len() == 54 + y * row,
                forall|i: int|
                    0 <= i < out@.len() ==> #[trigger] out@[i] == bmp_byte(
                        w as int,
                        h as int,
                        image.data@,
                        i,
                    ),
            decreases h - y,
        {
            proof {
                lemma_row_step(y as int, row as int, h as int);
            }
            let mut x: u32 = 0;
            while x < w
                invariant
                    0 <= x <= w,
                    y < h,
                    w == image.width,
                    h == image.height,
                    image.wf(),
                    row as int == bmp_row(w as int),
                    extra == w % 4,
                    54 + bmp_size(w as int, h as int) <= u32::MAX,
                    h as int * row as int == bmp_size(w as int, h as int),
                    (y + 1) * row as int <= bmp_size(w as int, h as int),
                    out@.len() == 54 + y * row + 3 * x,
                    forall|i: int|
                        0 <= i < out@.len() ==> #[trigger] out@[i] == bmp_byte(
                            w as int,
                            h as int,
                            image.data@,
                            i,
                        ),
                decreases w - x,
            {
                let c = *image.get_pixel(x, y);
                proof {
                    lemma_pixel_offset(w as int, y as int, x as int, 0);
                    lemma_pixel_offset(w as int, y as int, x as int, 1);
                    lemma_pixel_offset(w as int, y as int, x as int, 2);
                }
                out.push(chan_byte(c.b));
                out.push(chan_byte(c.g));
                out.push(chan_byte(c.r));
                x = x + 1;
            }
            let mut k: u32 = 0;
            while k < extra
                invariant
                    0 <= k <= extra,
                    y < h,
                    w == image.width,
                    h == image.height,
                    image.wf(),
                    row as int == bmp_row(w as int),
                    extra == w % 4,
                    54 + bmp_size(w as int, h as int) <= u32::MAX,
                    h as int * row as int == bmp_size(w as int, h as int),
                    (y + 1) * row as int <= bmp_size(w as int, h as int),
                    out@.len() == 54 + y * row + 3 * w + k,
                    forall|i: int|
                        0 <= i < out@.len() ==> #[trigger] out@[i] == bmp_byte(
                            w as int,
                            h as int,
                            image.data@,
                            i,
                        ),
                decreases extra - k,
            {
                proof {
                    lemma_pad_offset(w as int, y as int, k as int);
                }
                out.push(0);
                k = k + 1;
            }
            proof {
                lemma_row_step(y as int, row as int, h as int);
            }
            y = y + 1;
        }
        proof {
            assert(out@.subrange(0, 54) =~= bmp_header(w as int, h as int));
        }
        out
    }
}

/// The row and array sizes computed in `u32` match their specs and fit.
proof fn lemma_bmp_sizes(w: int, h: int)
    requires
        0 <= w <= u32::MAX,
        0 <= h <= u32::MAX,
        bmp_row(w) <= u32::MAX,
        54 + bmp_size(w, h) <= u32::MAX,
    ensures
        0 <= bmp_size(w, h),
        h * bmp_row(w) == bmp_size(w, h),
        bmp_row(w) >= 0,
{
    assert(h * bmp_row(w) >= 0) by (nonlinear_arith)
        requires
            h >= 0,
            bmp_row(w) >= 0,
    ;
}

} // verus!
