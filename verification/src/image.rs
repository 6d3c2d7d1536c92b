//! The 8-bit single-channel output image and the 16-to-8-bit normalization.

use vstd::arithmetic::div_mod::lemma_div_is_ordered;
use vstd::arithmetic::div_mod::lemma_fundamental_div_mod;
use vstd::arithmetic::div_mod::lemma_mod_division_less_than_divisor;
use vstd::prelude::*;

use crate::error::VolumeError;
use crate::grid::row_major;

verus! {

/// A 16-bit sample normalized to 8 bits: `255 * v / 65535` rounded to the
/// nearest integer. Since `65535 == 257 * 255`, that ratio is exactly
/// `v / 257`, and because 257 is odd an exact tie can never occur, so the
/// nearest integer is unambiguous.
pub open spec fn normalized(v: int) -> int {
    (v + 128) / 257
}

/// [`normalized`] is the nearest integer to `v / 257`: it stays within 128
/// two-hundred-fifty-sevenths of `v`, and within the 8-bit range.
pub proof fn lemma_normalized_is_nearest(v: int)
    requires
        0 <= v <= 0xFFFF,
    ensures
        0 <= normalized(v) <= 255,
        -128 <= v - 257 * normalized(v) <= 128,
{
    lemma_fundamental_div_mod(v + 128, 257);
    lemma_mod_division_less_than_divisor(v + 128, 257);
    lemma_div_is_ordered(0, v + 128, 257);
    lemma_div_is_ordered(v + 128, 0x1007Fint, 257);
    assert(0x1007Fint / 257 == 255);
}

/// An 8-bit single-channel image of known dimensions, stored row-major.
pub struct SliceImage {
    pixels: Vec<u8>,
    width: u32,
    height: u32,
}

impl SliceImage {
    /// The pixels in row-major order.
    pub closed spec fn spec_pixels(&self) -> Seq<u8> {
        self.pixels@
    }

    /// The number of pixel columns.
    pub closed spec fn spec_width(&self) -> nat {
        self.width as nat
    }

    /// The number of pixel rows.
    pub closed spec fn spec_height(&self) -> nat {
        self.height as nat
    }

    /// Well-formed: the buffer holds exactly `width * height` pixels.
    pub open spec fn wf(&self) -> bool {
        self.spec_pixels().len() == self.spec_width() * self.spec_height()
    }

    /// The pixel at row `y`, column `x`.
    pub open spec fn pixel_at(&self, y: int, x: int) -> u8 {
        self.spec_pixels()[row_major(y, x, self.spec_width() as int)]
    }

    /// Assembles an image from a pixel buffer. Fails with
    /// [`VolumeError::BufferAssemblyFailure`] exactly when the buffer does
    /// not hold `width * height` entries.
    pub fn from_raw(width: u32, height: u32, pixels: Vec<u8>) -> (r: Result<
        SliceImage,
        VolumeError,
    >)
        ensures
            match r {
                Ok(img) => {
                    &&& pixels@.len() == width * height
                    &&& img.wf()
                    &&& img.spec_width() == width
                    &&& img.spec_height() == height
                    &&& img.spec_pixels() == pixels@
                },
                Err(e) => {
                    &&& e == VolumeError::BufferAssemblyFailure
                    &&& pixels@.len() != width * height
                },
            },
    {
        proof {
            assert((width as int) * (height as int) <= 0xFFFFFFFE00000001) by (nonlinear_arith)
                requires
                    0 <= width <= 0xFFFFFFFF,
                    0 <= height <= 0xFFFFFFFF,
            ;
        }
        let expected: u64 = (width as u64) * (height as u64);
        if (pixels.len() as u64) != expected {
            return Err(VolumeError::BufferAssemblyFailure);
        }
        Ok(SliceImage { pixels, width, height })
    }

    /// The number of pixel columns.
    pub fn width(&self) -> (r: u32)
        ensures
            r == self.spec_width(),
    {
        self.width
    }

    /// The number of pixel rows.
    pub fn height(&self) -> (r: u32)
        ensures
            r == self.spec_height(),
    {
        self.height
    }

    /// The pixel buffer, row-major.
    pub fn pixels(&self) -> (r: &Vec<u8>)
        ensures
            r@ == self.spec_pixels(),
    {
        &self.pixels
    }

    /// Reads the pixel at row `y`, column `x`.
    pub fn get(&self, y: u32, x: u32) -> (r: u8)
        requires
            self.wf(),
            y < self.spec_height(),
            x < self.spec_width(),
        ensures
            r == self.pixel_at(y as int, x as int),
    {
        proof {
            assert(0 <= y * self.spec_width() + x && y * self.spec_width() + x < self.spec_width()
                * self.spec_height()) by (nonlinear_arith)
                requires
                    0 <= y < self.spec_height(),
                    0 <= x < self.spec_width(),
            ;
            assert(vstd::std_specs::vec::spec_vec_len(&self.pixels) == self.pixels@.len()) by {
                broadcast use vstd::std_specs::vec::axiom_spec_len;

            }
        }
        let idx: u64 = (y as u64) * (self.width as u64) + (x as u64);
        self.pixels[idx as usize]
    }

    /// Normalizes one 16-bit sample to 8 bits: the nearest integer to
    /// `255 * value / 65535`.
    pub fn normalize_to_u8(value: u16) -> (r: u8)
        ensures
            r as int == normalized(value as int),
    {
        proof {
            lemma_normalized_is_nearest(value as int);
        }
        (((value as u32) + 128) / 257) as u8
    }
}

} // verus!
