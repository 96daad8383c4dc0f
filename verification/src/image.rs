//! The output image: a row-major pixel buffer of colours, and its
//! conversion to 8-bit channel data.

use crate::colour::{black, chan_clamp, Colour};
use crate::coordinates::ImageCoordinates;
use crate::fixed::{tdiv, tdiv128, SCALE};
use vstd::prelude::*;

verus! {

/// A fixed-point channel as an 8-bit value: `255 * c`, truncated and
/// saturated to `[0, 255]` (what a float-to-byte cast of `255 * c` does).
pub open spec fn chan_to_u8(c: int) -> int {
    chan_clamp(tdiv(255 * c, SCALE as int), 0, 255)
}

/// Exec mirror of `chan_to_u8`.
pub fn chan_byte(c: i64) -> (b: u8)
    ensures
        b == chan_to_u8(c as int),
{
    let v = tdiv128(255 * c as i128, SCALE as i128);
    if v < 0 {
        0
    } else if v > 255 {
        255
    } else {
        v as u8
    }
}

/// A `width x height` image, pixels in row-major order (`x + width * y`).
pub struct Image {
    pub width: u32,
    pub height: u32,
    pub data: Vec<Colour>,
}

impl Image {
    /// The buffer holds exactly one colour per pixel.
    pub open spec fn wf(&self) -> bool {
        self.data@.len() == self.width as int * self.height as int
    }

    /// A black image.
    pub fn new(width: u32, height: u32) -> (img: Image)
        requires
            width as int * height as int <= u32::MAX,
        ensures
            img.width == width,
            img.height == height,
            img.wf(),
            forall|i: int| 0 <= i < img.data@.len() ==> img.data@[i] == black(),
    {
        let total = (width as u64 * height as u64) as usize;
        let mut data: Vec<Colour> = Vec::new();
        let mut i: usize = 0;
        while i < total
            invariant
                0 <= i <= total,
                data@.len() == i,
                forall|j: int| 0 <= j < i ==> data@[j] == black(),
            decreases total - i,
        {
            data.push(Colour { r: 0, g: 0, b: 0 });
            i = i + 1;
        }
        Image { width, height, data }
    }

    /// A coordinate walker over this image's grid.
    pub fn coordinates(&self) -> (c: ImageCoordinates)
        ensures
            c == (ImageCoordinates { width: self.width, height: self.height, x: 0, y: 0 }),
    {
        ImageCoordinates::new(self.width, self.height)
    }

    pub fn set_pixel(&mut self, x: u32, y: u32, colour: Colour)
        requires
            old(self).wf(),
            x < old(self).width,
            y < old(self).height,
        ensures
            final (self).width == old(self).width,
            final (self).height == old(self).height,
            final (self).wf(),
            final (self).data@ == old(self).data@.update(
                x as int + old(self).width as int * y as int,
                colour,
            ),
    {
        let n = self.data.len();
        proof {
            lemma_pixel_index(x as int, y as int, self.width as int, self.height as int);
            crate::fixed::lemma_mul_abs_bound(
                self.width as int,
                y as int,
                u32::MAX as int,
                u32::MAX as int,
            );
        }
        let idx = (x as u64 + self.width as u64 * y as u64) as usize;
        self.data.set(idx, colour);
    }

    pub fn get_pixel(&self, x: u32, y: u32) -> (c: &Colour)
        requires
            self.wf(),
            x < self.width,
            y < self.height,
        ensures
            *c == self.data@[x as int + self.width as int * y as int],
    {
        let n = self.data.len();
        proof {
            lemma_pixel_index(x as int, y as int, self.width as int, self.height as int);
            crate::fixed::lemma_mul_abs_bound(
                self.width as int,
                y as int,
                u32::MAX as int,
                u32::MAX as int,
            );
        }
        let idx = (x as u64 + self.width as u64 * y as u64) as usize;
        &self.data[idx]
    }

    /// The image as RGBA bytes, 4 per pixel in pixel order, alpha opaque.
    pub fn into_u8(&self) -> (out: Vec<u8>)
        requires
            self.wf(),
            4 * self.width as int * self.height as int <= u32::MAX,
        ensures
            out@.len() == 4 * self.data@.len(),
            forall|i: int|
                0 <= i < self.data@.len() ==> {
                    &&& out@[4 * i] == chan_to_u8((#[trigger] self.data@[i]).r as int)
                    &&& out@[4 * i + 1] == chan_to_u8(self.data@[i].g as int)
                    &&& out@[4 * i + 2] == chan_to_u8(self.data@[i].b as int)
                    &&& out@[4 * i + 3] == 255
                },
    {
        let n = self.data.len();
        let mut out: Vec<u8> = Vec::new();
        let mut i: usize = 0;
        while i < n
            invariant
                0 <= i <= n,
                n == self.data@.len(),
                out@.len() == 4 * i,
                forall|j: int|
                    0 <= j < i ==> {
                        &&& out@[4 * j] == chan_to_u8((#[trigger] self.data@[j]).r as int)
                        &&& out@[4 * j + 1] == chan_to_u8(self.data@[j].g as int)
                        &&& out@[4 * j + 2] == chan_to_u8(self.data@[j].b as int)
                        &&& out@[4 * j + 3] == 255
                    },
            decreases n - i,
        {
            let c = self.data[i];
            out.push(chan_byte(c.r));
            out.push(chan_byte(c.g));
            out.push(chan_byte(c.b));
            out.push(255);
            i = i + 1;
        }
        out
    }
}

/// A pixel's flat index lies inside the row-major buffer.
proof fn lemma_pixel_index(x: int, y: int, w: int, h: int)
    requires
        0 <= x < w,
        0 <= y < h,
    ensures
        0 <= x + w * y < w * h,
{
    assert(w * y <= w * (h - 1) && w * (h - 1) == w * h - w) by (nonlinear_arith)
        requires
            0 <= w,
            y <= h - 1,
    ;
    assert(w * y >= 0) by (nonlinear_arith)
        requires
            w >= 0,
            y >= 0,
    ;
}

} // verus!
