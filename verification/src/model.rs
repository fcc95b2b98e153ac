//! The mathematical model of the wire format: what byte stream the encoder
//! emits for a pixel sequence, and what pixels a decoder pulls back out of a
//! byte stream. The executable encoder and decoder are specified against
//! these functions, and the round-trip law is proved about them.

use vstd::prelude::*;

use crate::consts::{COLOR, DIFF_16, DIFF_24, DIFF_8, INDEX, MAGIC, MASK_2, MASK_3, MASK_4, RUN_16,
    RUN_8};
use crate::error::Error;
use crate::pixel::{spec_hash, spec_slot, Pixel};

verus! {

/// The previous-pixel register both directions start from: opaque black.
pub open spec fn init_pixel() -> Pixel {
    Pixel { r: 0, g: 0, b: 0, a: 255 }
}

/// The color cache both directions start from: transparent black in every
/// one of the 64 slots.
pub open spec fn init_cache() -> Seq<Pixel> {
    Seq::new(64, |i: int| Pixel { r: 0, g: 0, b: 0, a: 0 })
}

/// A word read big-endian from four bytes.
pub open spec fn u32_of_be(b0: u8, b1: u8, b2: u8, b3: u8) -> u32 {
    (b0 as u32) << 24 | (b1 as u32) << 16 | (b2 as u32) << 8 | (b3 as u32)
}

/// The four big-endian bytes of a word.
pub open spec fn be_bytes_of(w: u32) -> Seq<u8> {
    seq![(w >> 24) as u8, (w >> 16) as u8, (w >> 8) as u8, w as u8]
}

/// The 14-byte stream header for an image of the given dimensions: the
/// magic marker, both dimensions big-endian, a channel-count byte and a
/// colorspace byte.
pub open spec fn spec_header(width: u32, height: u32) -> Seq<u8> {
    seq![0x71u8, 0x6fu8, 0x69u8, 0x66u8] + be_bytes_of(width) + be_bytes_of(height) + seq![
        4u8,
        0u8,
    ]
}

/// The longest run one chunk can carry.
pub const MAX_RUN: u16 = 0x2020;

/// The chunk that flushes a pending run of `run` identical pixels: one
/// byte for runs up to 32, two bytes beyond.
pub open spec fn run_chunk_bytes(run: u16) -> Seq<u8>
    recommends
        1 <= run <= MAX_RUN,
{
    if run < 33 {
        seq![RUN_8 | ((run - 1) as u8)]
    } else {
        let v = (run - 33) as u16;
        seq![RUN_16 | ((v >> 8) as u8), (v & 0xff) as u8]
    }
}

/// The pixel's cache slot as a byte, for packing into an index chunk.
pub open spec fn spec_slot_u8(p: Pixel) -> u8 {
    (spec_hash(p) as int % 64) as u8
}

/// Whether the cache holds `px` at the slot its hash addresses, so that a
/// one-byte index chunk can stand for it.
pub open spec fn cache_hit(px: Pixel, cache: Seq<Pixel>) -> bool {
    cache[spec_slot(px)] == px
}

/// The cache after the encoder handles one pixel that was not absorbed
/// into a run: unchanged on a cache hit, overwritten at the pixel's slot
/// otherwise.
pub open spec fn cache_after_encode(px: Pixel, cache: Seq<Pixel>) -> Seq<Pixel> {
    if cache_hit(px, cache) {
        cache
    } else {
        cache.update(spec_slot(px), px)
    }
}

/// The chunk the encoder emits for one pixel that differs from the
/// previous one, chosen greedily from smallest to largest: a cache index,
/// a one-, two- or three-byte diff against the previous pixel, or a
/// literal carrying only the changed channels.
pub open spec fn px_chunk_bytes(px: Pixel, prev: Pixel, cache: Seq<Pixel>) -> Seq<u8>
    recommends
        px != prev,
        cache.len() == 64,
{
    if cache_hit(px, cache) {
        seq![INDEX | spec_slot_u8(px)]
    } else {
        let vr = px.r - prev.r;
        let vg = px.g - prev.g;
        let vb = px.b - prev.b;
        let va = px.a - prev.a;
        if -16 <= vr <= 15 && -16 <= vg <= 15 && -16 <= vb <= 15 && -16 <= va <= 15 {
            if va == 0 && -2 <= vr <= 1 && -2 <= vg <= 1 && -2 <= vb <= 1 {
                let x = (vr + 2) as u8;
                let y = (vg + 2) as u8;
                let z = (vb + 2) as u8;
                seq![DIFF_8 | (x << 4) | (y << 2) | z]
            } else if va == 0 && -8 <= vg <= 7 && -8 <= vb <= 7 {
                let dr = (vr + 16) as u8;
                let dg = (vg + 8) as u8;
                let db = (vb + 8) as u8;
                seq![DIFF_16 | dr, (dg << 4) | db]
            } else {
                let dr = (vr + 16) as u8;
                let dg = (vg + 16) as u8;
                let db = (vb + 16) as u8;
                let da = (va + 16) as u8;
                seq![DIFF_24 | (dr >> 1), (dr << 7) | (dg << 2) | (db >> 3), (db << 5) | da]
            }
        } else {
            let fr: u8 = if px.r != prev.r {
                8
            } else {
                0
            };
            let fg: u8 = if px.g != prev.g {
                4
            } else {
                0
            };
            let fb: u8 = if px.b != prev.b {
                2
            } else {
                0
            };
            let fa: u8 = if px.a != prev.a {
                1
            } else {
                0
            };
            seq![COLOR | fr | fg | fb | fa] + (if px.r != prev.r {
                seq![px.r]
            } else {
                Seq::<u8>::empty()
            }) + (if px.g != prev.g {
                seq![px.g]
            } else {
                Seq::<u8>::empty()
            }) + (if px.b != prev.b {
                seq![px.b]
            } else {
                Seq::<u8>::empty()
            }) + (if px.a != prev.a {
                seq![px.a]
            } else {
                Seq::<u8>::empty()
            })
        }
    }
}

/// The chunk stream the encoder emits for the remaining pixels, carrying
/// the shared state: the previous pixel, the pending run length, and the
/// color cache. A pending run is flushed when it reaches the maximum
/// encodable length, when the next pixel differs from the previous one,
/// or at the last pixel of the image.
pub open spec fn spec_encode_body(pixels: Seq<Pixel>, prev: Pixel, run: u16, cache: Seq<Pixel>)
    -> Seq<u8>
    recommends
        run < MAX_RUN,
        cache.len() == 64,
    decreases pixels.len(),
{
    if pixels.len() == 0 {
        Seq::<u8>::empty()
    } else {
        let px = pixels[0];
        let run1: u16 = if px == prev {
            (run + 1) as u16
        } else {
            run
        };
        let flush = run1 > 0 && (run1 == MAX_RUN || px != prev || pixels.len() == 1);
        let flushed = if flush {
            run_chunk_bytes(run1)
        } else {
            Seq::<u8>::empty()
        };
        let run2: u16 = if flush {
            0
        } else {
            run1
        };
        if px != prev {
            flushed + px_chunk_bytes(px, prev, cache) + spec_encode_body(
                pixels.skip(1),
                px,
                run2,
                cache_after_encode(px, cache),
            )
        } else {
            flushed + spec_encode_body(pixels.skip(1), px, run2, cache)
        }
    }
}

/// The complete encoded stream for an image: header, chunk body, and the
/// unconditional 4-byte zero terminator.
pub open spec fn spec_encode(width: u32, height: u32, pixels: Seq<Pixel>) -> Seq<u8> {
    spec_header(width, height) + spec_encode_body(pixels, init_pixel(), 0, init_cache()) + seq![
        0u8,
        0u8,
        0u8,
        0u8,
    ]
}

/// A fresh 64-slot color cache, every slot transparent black.
pub(crate) fn new_cache() -> (v: Vec<Pixel>)
    ensures
        v@ == init_cache(),
{
    let mut v: Vec<Pixel> = Vec::new();
    let mut i: usize = 0;
    while i < 64
        invariant
            i <= 64,
            v@.len() == i as int,
            forall|j: int| 0 <= j < i ==> v@[j] == (Pixel { r: 0, g: 0, b: 0, a: 0 }),
        decreases 64 - i,
    {
        v.push(Pixel::transparent());
        i = i + 1;
    }
    proof {
        assert(v@ =~= init_cache());
    }
    v
}

/// The decoder's state after one pull: the position in the byte stream,
/// the pixel just produced (which is also the new previous pixel), the
/// remaining run budget, and the color cache.
pub struct ParseOut {
    pub pos: int,
    pub px: Pixel,
    pub run: u16,
    pub cache: Seq<Pixel>,
}

/// One pull of the decoder at position `pos` with state `(px, run,
/// cache)`: consume the run budget without reading if one is active, else
/// read a tag byte and dispatch, testing the narrowest masks first.
/// `None` means the byte source ran short.
pub open spec fn spec_parse(bytes: Seq<u8>, pos: int, px: Pixel, run: u16, cache: Seq<Pixel>)
    -> Option<ParseOut>
    recommends
        0 <= pos,
        cache.len() == 64,
{
    if run > 0 {
        Some(ParseOut { pos, px, run: (run - 1) as u16, cache })
    } else if pos + 1 > bytes.len() {
        None
    } else {
        let b1 = bytes[pos];
        if b1 & MASK_2 == INDEX {
            let npx = cache[(b1 ^ INDEX) as int];
            Some(
                ParseOut { pos: pos + 1, px: npx, run: 0, cache: cache.update(spec_slot(npx), npx) },
            )
        } else if b1 & MASK_3 == RUN_8 {
            Some(
                ParseOut {
                    pos: pos + 1,
                    px,
                    run: (b1 & 0x1f) as u16,
                    cache: cache.update(spec_slot(px), px),
                },
            )
        } else if b1 & MASK_3 == RUN_16 {
            if pos + 2 > bytes.len() {
                None
            } else {
                let b2 = bytes[pos + 1];
                let v = (((b1 & 0x1f) as u16) << 8) | (b2 as u16);
                Some(
                    ParseOut {
                        pos: pos + 2,
                        px,
                        run: (v + 32) as u16,
                        cache: cache.update(spec_slot(px), px),
                    },
                )
            }
        } else if b1 & MASK_2 == DIFF_8 {
            let npx = Pixel {
                r: px.r.wrapping_add(((b1 >> 4) & 0x03).wrapping_sub(2)),
                g: px.g.wrapping_add(((b1 >> 2) & 0x03).wrapping_sub(2)),
                b: px.b.wrapping_add((b1 & 0x03).wrapping_sub(2)),
                a: px.a,
            };
            Some(
                ParseOut { pos: pos + 1, px: npx, run: 0, cache: cache.update(spec_slot(npx), npx) },
            )
        } else if b1 & MASK_3 == DIFF_16 {
            if pos + 2 > bytes.len() {
                None
            } else {
                let b2 = bytes[pos + 1];
                let npx = Pixel {
                    r: px.r.wrapping_add((b1 & 0x1f).wrapping_sub(16)),
                    g: px.g.wrapping_add((b2 >> 4).wrapping_sub(8)),
                    b: px.b.wrapping_add((b2 & 0x0f).wrapping_sub(8)),
                    a: px.a,
                };
                Some(
                    ParseOut {
                        pos: pos + 2,
                        px: npx,
                        run: 0,
                        cache: cache.update(spec_slot(npx), npx),
                    },
                )
            }
        } else if b1 & MASK_4 == DIFF_24 {
            if pos + 3 > bytes.len() {
                None
            } else {
                let b2 = bytes[pos + 1];
                let b3 = bytes[pos + 2];
                let npx = Pixel {
                    r: px.r.wrapping_add((((b1 & 0x0f) << 1) | (b2 >> 7)).wrapping_sub(16)),
                    g: px.g.wrapping_add(((b2 & 0x7c) >> 2).wrapping_sub(16)),
                    b: px.b.wrapping_add(
                        (((b2 & 0x03) << 3) | ((b3 & 0xe0) >> 5)).wrapping_sub(16),
                    ),
                    a: px.a.wrapping_add((b3 & 0x1f).wrapping_sub(16)),
                };
                Some(
                    ParseOut {
                        pos: pos + 3,
                        px: npx,
                        run: 0,
                        cache: cache.update(spec_slot(npx), npx),
                    },
                )
            }
        } else {
            // Every remaining tag byte is a literal color chunk: one byte
            // per presence bit, replacing only the flagged channels.
            let n: int = (if b1 & 8 != 0 {
                1int
            } else {
                0int
            }) + (if b1 & 4 != 0 {
                1int
            } else {
                0int
            }) + (if b1 & 2 != 0 {
                1int
            } else {
                0int
            }) + (if b1 & 1 != 0 {
                1int
            } else {
                0int
            });
            if pos + 1 + n > bytes.len() {
                None
            } else {
                let p1 = pos + 1;
                let rp: (u8, int) = if b1 & 8 != 0 {
                    (bytes[p1], p1 + 1)
                } else {
                    (px.r, p1)
                };
                let gp: (u8, int) = if b1 & 4 != 0 {
                    (bytes[rp.1], rp.1 + 1)
                } else {
                    (px.g, rp.1)
                };
                let bp: (u8, int) = if b1 & 2 != 0 {
                    (bytes[gp.1], gp.1 + 1)
                } else {
                    (px.b, gp.1)
                };
                let ap: (u8, int) = if b1 & 1 != 0 {
                    (bytes[bp.1], bp.1 + 1)
                } else {
                    (px.a, bp.1)
                };
                let npx = Pixel { r: rp.0, g: gp.0, b: bp.0, a: ap.0 };
                Some(
                    ParseOut { pos: ap.1, px: npx, run: 0, cache: cache.update(spec_slot(npx), npx) },
                )
            }
        }
    }
}

/// The result of pulling `n` pixels in a row: the pixels in order and the
/// decoder's final state.
pub struct DecodeOut {
    pub out: Seq<Pixel>,
    pub pos: int,
    pub px: Pixel,
    pub run: u16,
    pub cache: Seq<Pixel>,
}

/// Pull `n` pixels from the decoder, threading the state through every
/// step. `None` means the byte source ran short before the `n`th pixel.
pub open spec fn spec_decode_n(
    bytes: Seq<u8>,
    pos: int,
    px: Pixel,
    run: u16,
    cache: Seq<Pixel>,
    n: nat,
) -> Option<DecodeOut>
    decreases n,
{
    if n == 0 {
        Some(DecodeOut { out: Seq::<Pixel>::empty(), pos, px, run, cache })
    } else {
        match spec_parse(bytes, pos, px, run, cache) {
            None => None,
            Some(p) => match spec_decode_n(bytes, p.pos, p.px, p.run, p.cache, (n - 1) as nat) {
                None => None,
                Some(d) => Some(DecodeOut { out: seq![p.px] + d.out, ..d }),
            },
        }
    }
}

/// What reading the 14-byte header yields: the dimensions, or the exact
/// error. A wrong magic marker is reported before the size fields are
/// even looked at; a zero dimension is rejected before any pixel work.
pub open spec fn spec_decode_header(bytes: Seq<u8>) -> Result<(u32, u32), Error> {
    if bytes.len() < 4 {
        Err(Error::IoFailure)
    } else if u32_of_be(bytes[0], bytes[1], bytes[2], bytes[3]) != MAGIC {
        Err(Error::InvalidHeader(bytes[0], bytes[1], bytes[2], bytes[3]))
    } else if bytes.len() < 14 {
        Err(Error::IoFailure)
    } else {
        let w = u32_of_be(bytes[4], bytes[5], bytes[6], bytes[7]);
        let h = u32_of_be(bytes[8], bytes[9], bytes[10], bytes[11]);
        if w == 0 || h == 0 {
            Err(Error::InvalidDimensions)
        } else {
            Ok((w, h))
        }
    }
}

/// What decoding a whole byte stream yields: the dimensions and the full
/// `width * height` pixel sequence, or the exact error.
pub open spec fn spec_decode(bytes: Seq<u8>) -> Result<(u32, u32, Seq<Pixel>), Error> {
    match spec_decode_header(bytes) {
        Err(e) => Err(e),
        Ok((w, h)) => match spec_decode_n(
            bytes,
            14,
            init_pixel(),
            0,
            init_cache(),
            (w * h) as nat,
        ) {
            None => Err(Error::IoFailure),
            Some(d) => Ok((w, h, d.out)),
        },
    }
}

} // verus!
