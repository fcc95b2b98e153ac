//! A lossless image codec: a reversible transform between a rectangular
//! array of RGBA pixels and a compact byte stream, built on per-pixel
//! prediction, run-length compression of repeated pixels, and a 64-slot
//! cache of recently seen colors.
//!
//! The wire format and both directions of the transform are specified in
//! [`model`]; [`laws`] proves the format's central properties, above all
//! that decoding inverts encoding.

pub(crate) mod consts;
mod decode;
mod encode;
mod error;
pub mod laws;
pub mod model;
mod pixel;

pub use decode::{decode, decode_into_vec, Okay, Pixels, Positioned, Unwrapped};
pub use encode::encode;
pub use error::Error;
pub use pixel::Pixel;
