//! The bit-packed pixel buffer: a width, a height, a byte-aligned row stride
//! in bits, and one bit per pixel, all pixels initialized to the background
//! palette index 0.

use vstd::prelude::*;
use vstd::assert_seqs_equal;
use crate::bits::{BitBuf, bv_bits, bv_repeat, bv_set, bv_raw_bytes, spec_packed, lemma_packed_bytes};

verus! {

/// Rejected dimensions at buffer construction.
#[derive(Clone, Copy, Debug, PartialEq, Eq, Structural)]
pub enum ConstructionError {
    /// Width or height is zero.
    ZeroDimension,
    /// The bit storage `stride * height` would not fit in addressable memory.
    TooLarge,
}

/// A pixel coordinate outside `[0, width) x [0, height)` was passed to a
/// mutation; the buffer is left unchanged.
#[derive(Clone, Copy, Debug, PartialEq, Eq, Structural)]
pub struct OutOfBoundsError;

/// The number of bit-columns stored per row: `width` rounded up to the next
/// multiple of 8, so that every row occupies a whole number of bytes.
pub open spec fn stride_for(width: u32) -> int {
    ((width + 7) / 8) * 8
}

/// The stride is a multiple of 8, is at least `width`, and exceeds it by
/// less than 8: the smallest byte-aligned row length.
pub proof fn lemma_stride_bounds(width: u32)
    ensures
        stride_for(width) % 8 == 0,
        stride_for(width) >= width,
        stride_for(width) < width + 8,
{
}

/// An in-memory image buffer for 2-color indexed images, one bit per pixel.
pub struct PngIndexed {
    width: u32,
    height: u32,
    stride: u32,
    data: BitBuf,
}

impl PngIndexed {
    /// The count of addressable columns.
    pub closed spec fn spec_width(self) -> u32 {
        self.width
    }

    /// The count of addressable rows.
    pub closed spec fn spec_height(self) -> u32 {
        self.height
    }

    /// The stored row stride in bits.
    pub closed spec fn spec_stride(self) -> u32 {
        self.stride
    }

    /// The packed bit sequence: rows top to bottom, each `stride` bits long.
    pub closed spec fn bits(self) -> Seq<bool> {
        bv_bits(self.data)
    }

    /// The structural invariant: positive dimensions, the stride derived
    /// from the width, a bit for every stored bit-column, and a bit count
    /// small enough that every flat bit index fits in a machine word.
    pub open spec fn wf(self) -> bool {
        &&& self.spec_width() > 0
        &&& self.spec_height() > 0
        &&& self.spec_stride() == stride_for(self.spec_width())
        &&& self.bits().len() == self.spec_stride() * self.spec_height()
        &&& self.bits().len() <= usize::MAX / 8
    }

    /// The logical value of the pixel at `(x, y)`: `true` is palette index 1,
    /// `false` is the background index 0.
    pub open spec fn spec_pixel(self, x: int, y: int) -> bool {
        self.bits()[y * self.spec_stride() + x]
    }

    /// Creates a background-filled buffer of the given dimensions.
    pub fn new(width: u32, height: u32) -> (r: Result<PngIndexed, ConstructionError>)
        ensures
            match r {
                Ok(b) => {
                    &&& width > 0 && height > 0
                    &&& stride_for(width) <= u32::MAX
                    &&& stride_for(width) * height <= usize::MAX / 8
                    &&& b.wf()
                    &&& b.spec_width() == width
                    &&& b.spec_height() == height
                    &&& b.spec_stride() == stride_for(width)
                    &&& b.bits() == Seq::new((stride_for(width) * height) as nat, |i: int| false)
                },
                Err(ConstructionError::ZeroDimension) => width == 0 || height == 0,
                Err(ConstructionError::TooLarge) => {
                    &&& width > 0 && height > 0
                    &&& (stride_for(width) > u32::MAX || stride_for(width) * height > usize::MAX
                        / 8)
                },
            },
    {
        if width == 0 || height == 0 {
            return Err(ConstructionError::ZeroDimension);
        }
        let stride64: u64 = ((width as u64 + 7) / 8) * 8;
        assert(stride64 == stride_for(width));
        if stride64 > u32::MAX as u64 {
            return Err(ConstructionError::TooLarge);
        }
        assert(stride64 * height <= 0xffff_ffffu64 * 0xffff_ffffu64) by (nonlinear_arith)
            requires
                stride64 <= 0xffff_ffffu64,
                height <= 0xffff_ffffu64,
        ;
        let total_bits: u64 = stride64 * (height as u64);
        if total_bits > (usize::MAX / 8) as u64 {
            return Err(ConstructionError::TooLarge);
        }
        let data = bv_repeat(false, total_bits as usize);
        Ok(PngIndexed { width, height, stride: stride64 as u32, data })
    }

    /// The width of the image.
    pub fn width(&self) -> (r: u32)
        ensures
            r == self.spec_width(),
    {
        self.width
    }

    /// The height of the image.
    pub fn height(&self) -> (r: u32)
        ensures
            r == self.spec_height(),
    {
        self.height
    }

    /// The row stride in bits.
    pub fn stride(&self) -> (r: u32)
        ensures
            r == self.spec_stride(),
    {
        self.stride
    }

    /// Sets the pixel at `(x, y)` to palette index 0 when `pixel` is zero and
    /// to palette index 1 otherwise. A coordinate outside the logical image
    /// is rejected and the buffer is left unchanged.
    pub fn put_pixel(&mut self, x: u32, y: u32, pixel: u8) -> (r: Result<(), OutOfBoundsError>)
        requires
            old(self).wf(),
        ensures
            final (self).wf(),
            final (self).spec_width() == old(self).spec_width(),
            final (self).spec_height() == old(self).spec_height(),
            final (self).spec_stride() == old(self).spec_stride(),
            match r {
                Ok(_) => {
                    &&& x < old(self).spec_width() && y < old(self).spec_height()
                    &&& final (self).bits() == old(self).bits().update(
                        y * old(self).spec_stride() + x,
                        pixel != 0,
                    )
                },
                Err(_) => {
                    &&& x >= old(self).spec_width() || y >= old(self).spec_height()
                    &&& *final (self) == *old(self)
                },
            },
    {
        if x >= self.width || y >= self.height {
            return Err(OutOfBoundsError);
        }
        proof {
            lemma_stride_bounds(self.spec_width());
            lemma_flat_index_in_range(
                self.spec_stride() as int,
                self.spec_height() as int,
                x as int,
                y as int,
            );
        }
        let index: u64 = (y as u64) * (self.stride as u64) + (x as u64);
        bv_set(&mut self.data, index as usize, pixel != 0);
        Ok(())
    }

    /// The packed bit storage as bytes: rows top to bottom, each row's bits
    /// left-aligned within its byte-aligned stride, most significant bit
    /// first. This is the exact transfer format the encoder consumes.
    pub fn raw_bytes(&self) -> (r: Vec<u8>)
        requires
            self.wf(),
        ensures
            r@ == spec_packed(self.bits()),
            r@.len() * 8 == self.bits().len(),
    {
        proof {
            lemma_stride_bounds(self.spec_width());
            vstd::arithmetic::div_mod::lemma_mul_mod_noop_left(
                self.spec_stride() as int,
                self.spec_height() as int,
                8,
            );
            assert(self.bits().len() % 8 == 0);
        }
        let r = bv_raw_bytes(&self.data);
        proof {
            lemma_packed_bytes(self.bits(), r@);
        }
        r
    }
}

/// A coordinate inside a `stride` by `height` grid maps to a flat bit index
/// inside the stored bit sequence.
pub proof fn lemma_flat_index_in_range(stride: int, height: int, x: int, y: int)
    by (nonlinear_arith)
    requires
        0 <= x < stride,
        0 <= y < height,
    ensures
        0 <= y * stride + x < stride * height,
{
}

/// Distinct coordinates inside a `stride`-wide grid map to distinct flat
/// bit indices.
pub proof fn lemma_flat_index_injective(stride: int, x1: int, y1: int, x2: int, y2: int)
    by (nonlinear_arith)
    requires
        0 <= x1 < stride,
        0 <= x2 < stride,
        0 <= y1,
        0 <= y2,
        y1 * stride + x1 == y2 * stride + x2,
    ensures
        x1 == x2,
        y1 == y2,
{
}

/// A buffer whose bits are all clear reads the background index 0 at every
/// in-range coordinate.
pub proof fn lemma_fresh_all_background(b: PngIndexed)
    requires
        b.wf(),
        forall|k: int| 0 <= k < b.bits().len() ==> !(#[trigger] b.bits()[k]),
    ensures
        forall|x: int, y: int|
            0 <= x < b.spec_width() && 0 <= y < b.spec_height() ==> !(#[trigger] b.spec_pixel(
                x,
                y,
            )),
{
    lemma_stride_bounds(b.spec_width());
    assert forall|x: int, y: int|
        0 <= x < b.spec_width() && 0 <= y < b.spec_height() implies !(#[trigger] b.spec_pixel(
        x,
        y,
    )) by {
        lemma_flat_index_in_range(b.spec_stride() as int, b.spec_height() as int, x, y);
    }
}

/// After an in-range pixel write, the written coordinate reads back the
/// written value and every other in-range coordinate is unchanged.
pub proof fn lemma_pixel_round_trip(pre: PngIndexed, post: PngIndexed, x: u32, y: u32, v: bool)
    requires
        pre.wf(),
        x < pre.spec_width(),
        y < pre.spec_height(),
        post.spec_width() == pre.spec_width(),
        post.spec_height() == pre.spec_height(),
        post.spec_stride() == pre.spec_stride(),
        post.bits() == pre.bits().update(y * pre.spec_stride() + x, v),
    ensures
        post.spec_pixel(x as int, y as int) == v,
        forall|i: int, j: int|
            0 <= i < pre.spec_width() && 0 <= j < pre.spec_height() && !(i == x && j == y)
                ==> #[trigger] post.spec_pixel(i, j) == pre.spec_pixel(i, j),
{
    lemma_stride_bounds(pre.spec_width());
    let stride = pre.spec_stride() as int;
    let height = pre.spec_height() as int;
    lemma_flat_index_in_range(stride, height, x as int, y as int);
    assert forall|i: int, j: int|
        0 <= i < pre.spec_width() && 0 <= j < pre.spec_height() && !(i == x && j == y)
            implies #[trigger] post.spec_pixel(i, j) == pre.spec_pixel(i, j) by {
        lemma_flat_index_in_range(stride, height, i, j);
        if j * stride + i == y * stride + x {
            lemma_flat_index_injective(stride, i, j, x as int, y as int);
            assert(false);
        }
    }
}

/// Setting a pixel twice to the same value yields the same stored bit
/// sequence as setting it once.
pub proof fn lemma_put_pixel_idempotent(bits: Seq<bool>, i: int, v: bool)
    requires
        0 <= i < bits.len(),
    ensures
        bits.update(i, v).update(i, v) == bits.update(i, v),
{
    assert_seqs_equal!(bits.update(i, v).update(i, v) == bits.update(i, v));
}

} // verus!
