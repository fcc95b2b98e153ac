//! The codec's error taxonomy. Every error is terminal for the current
//! call: the codec performs no retries and no partial-result recovery.

use vstd::prelude::*;

verus! {

/// An encoding/decoding error.
#[derive(Copy, Clone, Eq, PartialEq, Structural, Debug)]
pub enum Error {
    /// The byte source ran out before the stream was complete: a short
    /// read, which is always a fatal parse error.
    IoFailure,
    /// The encoder's pixel source yielded fewer than `width * height`
    /// items.
    IteratorExhausted,
    /// The decoded stream did not begin with the four magic bytes
    /// `qoif`; the payload carries the four bytes found instead.
    InvalidHeader(u8, u8, u8, u8),
    /// The image has zero width or zero height.
    InvalidDimensions,
}

impl Error {
    /// A short human-readable description of the error.
    pub fn describe(&self) -> (s: &'static str)
        ensures
            s@.len() > 0,
    {
        let s = match self {
            Error::IoFailure => "byte stream ended early",
            Error::IteratorExhausted => "pixel source yielded too few pixels",
            Error::InvalidHeader(_, _, _, _) => "stream does not start with the qoif marker",
            Error::InvalidDimensions => "image width and height must be positive",
        };
        proof {
            reveal_strlit("byte stream ended early");
            reveal_strlit("pixel source yielded too few pixels");
            reveal_strlit("stream does not start with the qoif marker");
            reveal_strlit("image width and height must be positive");
        }
        s
    }
}

} // verus!
