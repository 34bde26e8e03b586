//! An in-memory pixel buffer for two-color images, packed at one bit per
//! pixel, together with an encoder that serializes the buffer into a valid
//! indexed-palette PNG byte stream.

use vstd::prelude::*;

pub mod bits;
pub mod buffer;
pub mod encoder;

verus! {

pub use crate::buffer::PngIndexed;
pub use crate::buffer::ConstructionError;
pub use crate::buffer::OutOfBoundsError;
pub use crate::encoder::EncodeError;
pub use crate::encoder::EncodeFailure;
pub use crate::encoder::encode;

} // verus!
