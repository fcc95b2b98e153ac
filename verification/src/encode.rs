//! The encoder: consumes `(width, height, pixel sequence)` and appends
//! `header + compressed body + terminator` to a byte sink. The emitted
//! stream is exactly `spec_encode` of the inputs.

use vstd::prelude::*;

use crate::consts::{COLOR, DIFF_16, DIFF_24, DIFF_8, INDEX, RUN_16, RUN_8};
use crate::error::Error;
use crate::model::{be_bytes_of, cache_after_encode, cache_hit, init_cache, init_pixel, new_cache,
    px_chunk_bytes, run_chunk_bytes, spec_encode, spec_encode_body, spec_header, spec_slot_u8,
    MAX_RUN};
use crate::pixel::{spec_slot, Pixel};

verus! {

/// Append the four big-endian bytes of a word.
fn push_u32_be(out: &mut Vec<u8>, w: u32)
    ensures
        final(out)@ == old(out)@ + be_bytes_of(w),
{
    out.push((w >> 24) as u8);
    out.push((w >> 16) as u8);
    out.push((w >> 8) as u8);
    out.push(w as u8);
    proof {
        assert(out@ =~= old(out)@ + be_bytes_of(w));
    }
}

/// Append the chunk that flushes a pending run of `run` identical pixels.
fn flush_run(run: u16, out: &mut Vec<u8>)
    requires
        1 <= run <= MAX_RUN,
    ensures
        final(out)@ == old(out)@ + run_chunk_bytes(run),
{
    if run < 33 {
        out.push(RUN_8 | ((run - 1) as u8));
        proof {
            assert(out@ =~= old(out)@ + run_chunk_bytes(run));
        }
    } else {
        let v = run - 33;
        out.push(RUN_16 | ((v >> 8) as u8));
        out.push((v & 0xff) as u8);
        proof {
            assert(out@ =~= old(out)@ + run_chunk_bytes(run));
        }
    }
}

/// Append the chunk for one pixel that differs from the previous one, and
/// apply the encoder's cache policy: reference the cache on a hit, update
/// it on a miss.
fn encode_px(px: Pixel, prev: Pixel, lookup: &mut Vec<Pixel>, out: &mut Vec<u8>)
    requires
        old(lookup)@.len() == 64,
        px != prev,
    ensures
        final(lookup)@ == cache_after_encode(px, old(lookup)@),
        final(out)@ == old(out)@ + px_chunk_bytes(px, prev, old(lookup)@),
{
    let index_u8 = px.hash() % 64;
    let index = index_u8 as usize;
    proof {
        assert(index == spec_slot(px));
        assert(index_u8 == spec_slot_u8(px));
    }
    if lookup[index] == px {
        // The pixel sits in the cache: one index byte stands for it, and
        // the cache is left untouched.
        out.push(INDEX | index_u8);
        proof {
            assert(cache_hit(px, lookup@));
            assert(out@ =~= old(out)@ + px_chunk_bytes(px, prev, lookup@));
        }
    } else {
        proof {
            assert(!cache_hit(px, old(lookup)@));
        }
        lookup[index] = px;
        let vr = (px.r as i16) - (prev.r as i16);
        let vg = (px.g as i16) - (prev.g as i16);
        let vb = (px.b as i16) - (prev.b as i16);
        let va = (px.a as i16) - (prev.a as i16);
        if vr >= -16 && vr <= 15 && vg >= -16 && vg <= 15 && vb >= -16 && vb <= 15 && va >= -16
            && va <= 15 {
            if va == 0 && vr >= -2 && vr <= 1 && vg >= -2 && vg <= 1 && vb >= -2 && vb <= 1 {
                let x = (vr + 2) as u8;
                let y = (vg + 2) as u8;
                let z = (vb + 2) as u8;
                out.push(DIFF_8 | (x << 4) | (y << 2) | z);
            } else if va == 0 && vg >= -8 && vg <= 7 && vb >= -8 && vb <= 7 {
                let dr = (vr + 16) as u8;
                let dg = (vg + 8) as u8;
                let db = (vb + 8) as u8;
                out.push(DIFF_16 | dr);
                out.push((dg << 4) | db);
            } else {
                let dr = (vr + 16) as u8;
                let dg = (vg + 16) as u8;
                let db = (vb + 16) as u8;
                let da = (va + 16) as u8;
                out.push(DIFF_24 | (dr >> 1));
                out.push((dr << 7) | (dg << 2) | (db >> 3));
                out.push((db << 5) | da);
            }
        } else {
            // A wholly new color: flag each changed channel in the tag
            // byte and append only the changed channels' raw values.
            let fr: u8 = if px.r != prev.r {
                8
            } else {
                0
            };
            let fg: u8 = if px.g != prev.g {
                4
            } else {
                0
            };
            let fb: u8 = if px.b != prev.b {
                2
            } else {
                0
            };
            let fa: u8 = if px.a != prev.a {
                1
            } else {
                0
            };
            out.push(COLOR | fr | fg | fb | fa);
            if px.r != prev.r {
                out.push(px.r);
            }
            if px.g != prev.g {
                out.push(px.g);
            }
            if px.b != prev.b {
                out.push(px.b);
            }
            if px.a != prev.a {
                out.push(px.a);
            }
        }
        proof {
            assert(out@ =~= old(out)@ + px_chunk_bytes(px, prev, old(lookup)@));
        }
    }
}

/// Encode the `width * height` pixels of `pixels` into `output`,
/// appending header, compressed body and the 4-byte terminator. Returns
/// the number of bytes written.
///
/// A zero dimension is rejected before any pixel is processed; a pixel
/// source shorter than `width * height` is rejected before any byte is
/// written; extra pixels beyond `width * height` are never consumed. The
/// emitted stream is a pure function of `(width, height, pixels)`.
pub fn encode(width: usize, height: usize, pixels: &Vec<Pixel>, output: &mut Vec<u8>) -> (r: Result<
    usize,
    Error,
>)
    requires
        width <= u32::MAX,
        height <= u32::MAX,
        width * height <= usize::MAX,
    ensures
        (width == 0 || height == 0) ==> r == Err::<usize, Error>(Error::InvalidDimensions)
            && final(output)@ == old(output)@,
        (width > 0 && height > 0 && pixels@.len() < width * height) ==> r == Err::<usize, Error>(
            Error::IteratorExhausted,
        ) && final(output)@ == old(output)@,
        (width > 0 && height > 0 && pixels@.len() >= width * height) ==> ({
            let enc = spec_encode(
                width as u32,
                height as u32,
                pixels@.take((width * height) as int),
            );
            &&& final(output)@ == old(output)@ + enc
            &&& r == Ok::<usize, Error>(enc.len() as usize)
        }),
{
    if width == 0 || height == 0 {
        return Err(Error::InvalidDimensions);
    }
    let num_pixels: usize = width * height;
    if pixels.len() < num_pixels {
        return Err(Error::IteratorExhausted);
    }
    let start_len: usize = output.len();
    let ghost all = pixels@.take(num_pixels as int);

    // The file header.
    output.push(0x71);
    output.push(0x6f);
    output.push(0x69);
    output.push(0x66);
    push_u32_be(output, width as u32);
    push_u32_be(output, height as u32);
    output.push(4);
    output.push(0);
    proof {
        assert(output@ =~= old(output)@ + spec_header(width as u32, height as u32));
    }

    // The running state shared with the decoder: previous pixel, pending
    // run length, and the color cache.
    let mut lookup = new_cache();
    let mut prev = Pixel::rgba(0, 0, 0, 255);
    let mut run: u16 = 0;
    let mut count: usize = 0;
    proof {
        assert(all.skip(0) =~= all);
    }

    while count < num_pixels
        invariant
            num_pixels == width * height,
            num_pixels <= pixels@.len(),
            all == pixels@.take(num_pixels as int),
            all.len() == num_pixels,
            count <= num_pixels,
            run < MAX_RUN,
            lookup@.len() == 64,
            output@ + spec_encode_body(all.skip(count as int), prev, run, lookup@) == old(
                output,
            )@ + spec_header(width as u32, height as u32) + spec_encode_body(
                all,
                init_pixel(),
                0,
                init_cache(),
            ),
        decreases num_pixels - count,
    {
        let ghost prev0 = prev;
        let ghost run0 = run;
        let ghost cache0 = lookup@;
        let ghost out0 = output@;
        let ghost suffix = all.skip(count as int);

        let px = pixels[count];
        proof {
            assert(suffix[0] == all[count as int]);
            assert(suffix.len() == num_pixels - count);
            assert(suffix.skip(1) =~= all.skip(count as int + 1));
        }
        count = count + 1;

        // A pixel equal to the previous one extends the active run.
        if px == prev {
            run = run + 1;
        }

        // Flush the run when it is full, broken, or at the last pixel.
        let ghost run1 = run;
        if run > 0 && (run == MAX_RUN || px != prev || count == num_pixels) {
            flush_run(run, output);
            run = 0;
        }
        let ghost flushed = if run1 > 0 && (run1 == MAX_RUN || px != prev0 || suffix.len() == 1) {
            run_chunk_bytes(run1)
        } else {
            Seq::<u8>::empty()
        };

        // A pixel not absorbed into a run gets its own chunk.
        if px != prev {
            encode_px(px, prev, &mut lookup, output);
        }
        prev = px;

        proof {
            let chunk = if px != prev0 {
                px_chunk_bytes(px, prev0, cache0)
            } else {
                Seq::<u8>::empty()
            };
            assert(output@ =~= out0 + flushed + chunk);
            assert(spec_encode_body(suffix, prev0, run0, cache0) == flushed + chunk
                + spec_encode_body(suffix.skip(1), px, run, lookup@));
            assert(out0 + (flushed + chunk + spec_encode_body(suffix.skip(1), px, run, lookup@))
                =~= (out0 + flushed + chunk) + spec_encode_body(suffix.skip(1), px, run, lookup@));
        }
    }

    proof {
        assert(all.skip(num_pixels as int) =~= Seq::<Pixel>::empty());
    }

    // Mark the end of the data block with 4 zero bytes.
    output.push(0);
    output.push(0);
    output.push(0);
    output.push(0);
    proof {
        assert(output@ =~= old(output)@ + spec_encode(width as u32, height as u32, all));
    }
    Ok(output.len() - start_len)
}

} // verus!
