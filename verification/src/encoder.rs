//! The container encoder adapter: drives the external PNG encoder with the
//! buffer's logical dimensions, the indexed color model at one bit per
//! sample, and the fixed 2-color palette, and returns the complete encoded
//! byte stream.

use vstd::prelude::*;
use vstd::assert_seqs_equal;
use crate::buffer::{PngIndexed, ConstructionError, OutOfBoundsError, stride_for, lemma_stride_bounds};
use crate::bits::spec_packed;

verus! {

/// A failure surfaced by the container encoder.
#[derive(Clone, Copy, Debug, PartialEq, Eq, Structural)]
pub enum EncodeError {
    /// The encoder rejected the header or metadata (zero dimensions).
    HeaderWriteFailed,
    /// The image-data block's length does not match what the container
    /// format expects for the declared width, height and bit depth.
    DataWriteFailed,
    /// Stream finalization failed.
    FinalizeFailed,
}

/// A failure of the one-shot encode entry point.
#[derive(Clone, Copy, Debug, PartialEq, Eq, Structural)]
pub enum EncodeFailure {
    /// The requested dimensions were rejected at buffer construction.
    Construction(ConstructionError),
    /// A pixel write lay outside the image.
    OutOfBounds(OutOfBoundsError),
    /// The container encoder failed.
    Encode(EncodeError),
}

/// The fixed 2-entry palette: index 0 is white, index 1 is black, each entry
/// an RGB triple.
pub open spec fn spec_palette() -> Seq<u8> {
    seq![255u8, 255u8, 255u8, 0u8, 0u8, 0u8]
}

/// The complete PNG byte stream that the external encoder produces for an
/// indexed-palette image of the given dimensions at one bit per sample, with
/// the given palette table and packed image-data bytes.
pub uninterp spec fn png_bytes_of(width: u32, height: u32, palette: Seq<u8>, data: Seq<u8>) -> Seq<
    u8,
>;

/// Relies on png::Encoder and png::Writer (Encoder::new, set_color with
/// ColorType::Indexed, set_palette, set_depth with BitDepth::One,
/// write_header, Writer::write_image_data, Writer::finish), writing into an
/// in-memory byte vector, whose writes never fail. The png source rejects a
/// zero width or height when the header is written; it rejects image data
/// whose length is not `ceil(width / 8)` bytes per row; with positive
/// dimensions and exactly that much data it writes the complete stream,
/// which is a function of the arguments alone.
#[verifier::external_body]
fn png_encode_indexed_1bit(width: u32, height: u32, palette: &Vec<u8>, data: &Vec<u8>) -> (r:
    Result<Vec<u8>, EncodeError>)
    requires
        palette@.len() == 6,
    ensures
        r is Ok <==> (width > 0 && height > 0 && data@.len() == ((width + 7) / 8) * height),
        match r {
            Ok(v) => v@ == png_bytes_of(width, height, palette@, data@),
            Err(EncodeError::HeaderWriteFailed) => width == 0 || height == 0,
            Err(EncodeError::DataWriteFailed) => width > 0 && height > 0 && data@.len() != ((width
                + 7) / 8) * height,
            Err(EncodeError::FinalizeFailed) => false,
        },
{
    let mut out: Vec<u8> = Vec::new();
    let mut encoder = png::Encoder::new(&mut out, width, height);
    encoder.set_color(png::ColorType::Indexed);
    encoder.set_palette(palette.clone());
    encoder.set_depth(png::BitDepth::One);
    let mut writer = match encoder.write_header() { Ok(w) => w, Err(_) => return Err(EncodeError::HeaderWriteFailed) };
    if writer.write_image_data(data).is_err() { return Err(EncodeError::DataWriteFailed); }
    match writer.finish() { Ok(_) => Ok(out), Err(_) => Err(EncodeError::FinalizeFailed) }
}

/// The fixed palette as a byte vector: white then black.
fn palette_bytes() -> (r: Vec<u8>)
    ensures
        r@ == spec_palette(),
{
    let mut v: Vec<u8> = Vec::new();
    v.push(255);
    v.push(255);
    v.push(255);
    v.push(0);
    v.push(0);
    v.push(0);
    proof {
        assert_seqs_equal!(v@ == spec_palette());
    }
    v
}

impl PngIndexed {
    /// Serializes the buffer with the fixed 2-color palette into a complete,
    /// independently valid indexed-palette PNG byte stream. The buffer's
    /// invariant guarantees the dimensions and the data length that the
    /// container encoder demands, so encoding always succeeds.
    pub fn to_png(&self) -> (r: Result<Vec<u8>, EncodeError>)
        requires
            self.wf(),
        ensures
            match r {
                Ok(v) => v@ == png_bytes_of(
                    self.spec_width(),
                    self.spec_height(),
                    spec_palette(),
                    spec_packed(self.bits()),
                ),
                Err(_) => false,
            },
    {
        let palette = palette_bytes();
        let data = self.raw_bytes();
        proof {
            lemma_stride_bounds(self.spec_width());
            let q = (self.spec_width() + 7) / 8;
            let h = self.spec_height() as int;
            assert(data@.len() * 8 == (q * 8) * h);
            assert((q * 8) * h == (q * h) * 8) by (nonlinear_arith);
            assert(data@.len() == q * h);
        }
        png_encode_indexed_1bit(self.width(), self.height(), &palette, &data)
    }
}

/// The stored bit sequence after applying a sequence of pixel writes in
/// order to `bits`: each write `(x, y, pixel)` sets the bit at
/// `y * stride + x` to whether its palette index is nonzero.
pub open spec fn apply_writes(bits: Seq<bool>, stride: int, writes: Seq<(u32, u32, u8)>) -> Seq<
    bool,
>
    decreases writes.len(),
{
    if writes.len() == 0 {
        bits
    } else {
        let w = writes[0];
        apply_writes(
            bits.update((w.1 as int) * stride + (w.0 as int), w.2 != 0),
            stride,
            writes.drop_first(),
        )
    }
}

/// Constructs a background-filled buffer of the given dimensions, applies
/// the pixel writes in order, and encodes the result with the fixed 2-color
/// palette: the single function-like encode entry point.
pub fn encode(width: u32, height: u32, writes: &Vec<(u32, u32, u8)>) -> (r: Result<
    Vec<u8>,
    EncodeFailure,
>)
    ensures
        match r {
            Ok(v) => {
                &&& width > 0 && height > 0
                &&& stride_for(width) <= u32::MAX
                &&& stride_for(width) * height <= usize::MAX / 8
                &&& forall|k: int|
                    0 <= k < writes@.len() ==> (#[trigger] writes@[k]).0 < width && writes@[k].1
                        < height
                &&& v@ == png_bytes_of(
                    width,
                    height,
                    spec_palette(),
                    spec_packed(
                        apply_writes(
                            Seq::new((stride_for(width) * height) as nat, |i: int| false),
                            stride_for(width),
                            writes@,
                        ),
                    ),
                )
            },
            Err(EncodeFailure::Construction(ConstructionError::ZeroDimension)) => width == 0
                || height == 0,
            Err(EncodeFailure::Construction(ConstructionError::TooLarge)) => {
                &&& width > 0 && height > 0
                &&& (stride_for(width) > u32::MAX || stride_for(width) * height > usize::MAX / 8)
            },
            Err(EncodeFailure::OutOfBounds(_)) => {
                &&& width > 0 && height > 0
                &&& stride_for(width) <= u32::MAX
                &&& stride_for(width) * height <= usize::MAX / 8
                &&& exists|k: int|
                    0 <= k < writes@.len() && ((#[trigger] writes@[k]).0 >= width || writes@[k].1
                        >= height)
            },
            Err(EncodeFailure::Encode(_)) => false,
        },
{
    let mut buf = match PngIndexed::new(width, height) {
        Ok(b) => b,
        Err(e) => {
            return Err(EncodeFailure::Construction(e));
        },
    };
    let ghost bits0 = buf.bits();
    let ghost stride = stride_for(width);
    proof {
        assert(writes@.skip(0) =~= writes@);
    }
    let mut i: usize = 0;
    while i < writes.len()
        invariant
            buf.wf(),
            buf.spec_width() == width,
            buf.spec_height() == height,
            buf.spec_stride() == stride,
            stride_for(width) <= u32::MAX,
            stride_for(width) * height <= usize::MAX / 8,
            i <= writes@.len(),
            forall|k: int|
                0 <= k < i ==> (#[trigger] writes@[k]).0 < width && writes@[k].1 < height,
            apply_writes(bits0, stride, writes@) == apply_writes(
                buf.bits(),
                stride,
                writes@.skip(i as int),
            ),
        decreases writes@.len() - i,
    {
        let w = writes[i];
        match buf.put_pixel(w.0, w.1, w.2) {
            Ok(_) => {},
            Err(e) => {
                return Err(EncodeFailure::OutOfBounds(e));
            },
        }
        proof {
            assert(writes@.skip(i as int)[0] == writes@[i as int]);
            assert(writes@.skip(i as int).drop_first() =~= writes@.skip(i as int + 1));
        }
        i = i + 1;
    }
    proof {
        assert(writes@.skip(writes@.len() as int) =~= Seq::<(u32, u32, u8)>::empty());
    }
    match buf.to_png() {
        Ok(v) => Ok(v),
        Err(e) => Err(EncodeFailure::Encode(e)),
    }
}

} // verus!
