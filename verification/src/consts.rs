//! The fixed tag bytes and bit masks that define the six chunk kinds,
//! and the stream's magic marker.

use vstd::prelude::*;

verus! {

/// The four magic bytes `qoif` (`0x71`, `0x6f`, `0x69`, `0x66`), packed
/// big-endian into one word.
pub const MAGIC: u32 = 0x716f6966;

/// Tag of a cache-index chunk (2-bit tag, 6-bit slot index).
pub const INDEX: u8 = 0x0;

/// Tag of a short run chunk (3-bit tag, 5-bit length field).
pub const RUN_8: u8 = 0x40;

/// Tag of a long run chunk (3-bit tag, 13-bit length field over two bytes).
pub const RUN_16: u8 = 0x60;

/// Tag of a one-byte diff chunk (2-bit tag, three 2-bit biased deltas).
pub const DIFF_8: u8 = 0x80;

/// Tag of a two-byte diff chunk (3-bit tag, one 5-bit and two 4-bit deltas).
pub const DIFF_16: u8 = 0xc0;

/// Tag of a three-byte diff chunk (4-bit tag, four 5-bit biased deltas).
pub const DIFF_24: u8 = 0xe0;

/// Tag of a literal color chunk (4-bit tag, four channel presence bits).
pub const COLOR: u8 = 0xf0;

/// Mask selecting a 2-bit tag.
pub const MASK_2: u8 = 0xc0;

/// Mask selecting a 3-bit tag.
pub const MASK_3: u8 = 0xe0;

/// Mask selecting a 4-bit tag.
pub const MASK_4: u8 = 0xf0;

} // verus!
