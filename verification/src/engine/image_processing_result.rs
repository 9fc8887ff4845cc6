use vstd::prelude::*;

use super::codec::b64_encode;
use super::codec::b64_encode_exec;

verus! {

/// A (width, height) pair in pixels, read off a decoded image.
#[derive(Debug, Clone, Copy, PartialEq, Eq, Structural)]
pub struct ImageDimension {
    pub width: u32,
    pub height: u32,
}

impl ImageDimension {
    pub fn new(width: u32, height: u32) -> (r: Self)
        ensures
            r == (ImageDimension { width, height }),
    {
        Self { width, height }
    }
}

/// The outcome of one processing operation: the re-encoded image,
/// immutable, exposed as raw bytes or as base64 text.
pub struct ImageProcessingResult {
    bytes: Vec<u8>,
}

impl View for ImageProcessingResult {
    type V = Seq<u8>;

    closed spec fn view(&self) -> Seq<u8> {
        self.bytes@
    }
}

impl ImageProcessingResult {
    pub fn new(bytes: Vec<u8>) -> (r: Self)
        ensures
            r@ == bytes@,
    {
        Self { bytes }
    }

    /// The produced image as raw bytes.
    pub fn to_byte(&self) -> (r: Vec<u8>)
        ensures
            r@ == self@,
    {
        vstd::slice::slice_to_vec(self.bytes.as_slice())
    }

    /// The produced image as base64 text.
    pub fn to_base64(&self) -> (r: String)
        ensures
            r@ == b64_encode(self@),
    {
        b64_encode_exec(&self.bytes)
    }
}

} // verus!
