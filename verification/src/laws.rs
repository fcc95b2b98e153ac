//! The laws of the codec, proved about the model: decoding inverts
//! encoding, encoding is deterministic, runs change chunk size exactly
//! at the 32-pixel boundary, a recently seen color is referenced through
//! the cache, and malformed headers are rejected with the exact error.

use vstd::prelude::*;

use crate::error::Error;
use crate::model::{cache_after_encode, cache_hit, init_cache, init_pixel, px_chunk_bytes,
    run_chunk_bytes, spec_decode, spec_decode_header, spec_decode_n, spec_encode,
    spec_encode_body, spec_header, spec_parse, spec_slot_u8, u32_of_be, DecodeOut, ParseOut,
    MAX_RUN};
use crate::pixel::{spec_hash, spec_slot, Pixel};

verus! {

/// Fully transparent black: what every cache slot starts as.
pub open spec fn trans_pixel() -> Pixel {
    Pixel { r: 0, g: 0, b: 0, a: 0 }
}

/// How the encoder's cache and the decoder's cache relate while decoding
/// an encoded stream. They agree everywhere, except that the decoder may
/// have stored the initial previous pixel (opaque black, whose hash slot
/// is 63) at a slot the encoder never wrote: the decoder re-stores the
/// previous pixel after every run chunk, and the initial previous pixel
/// is the one value that can be `prev` without ever having been the
/// result of a chunk. The last clause says the decoder's re-store is
/// otherwise a no-op: the slot of `prev` already holds `prev`.
pub open spec fn caches_agree(prev: Pixel, ce: Seq<Pixel>, cd: Seq<Pixel>) -> bool {
    &&& ce.len() == 64
    &&& cd.len() == 64
    &&& forall|j: int|
        0 <= j < 64 ==> ce[j] == cd[j] || (j == 63 && ce[j] == trans_pixel() && cd[j]
            == init_pixel())
    &&& cd[spec_slot(prev)] == prev || (prev == init_pixel() && ce[63] == trans_pixel())
}

/// The hash facts the cache correspondence turns on: the initial previous
/// pixel lives in slot 63, transparent black in slot 0.
proof fn lemma_special_slots()
    ensures
        spec_slot(init_pixel()) == 63,
        spec_slot(trans_pixel()) == 0,
{
    assert((0u8 ^ 0u8 ^ 0u8 ^ 255u8) == 255u8) by (bit_vector);
    assert((0u8 ^ 0u8 ^ 0u8 ^ 0u8) == 0u8) by (bit_vector);
}

/// A byte window that holds a concatenation splits into windows that hold
/// the parts.
proof fn lemma_subrange_split(bytes: Seq<u8>, pos: int, a: Seq<u8>, b: Seq<u8>)
    requires
        0 <= pos,
        pos + a.len() + b.len() <= bytes.len(),
        bytes.subrange(pos, pos + a.len() + b.len()) == a + b,
    ensures
        bytes.subrange(pos, pos + a.len() as int) == a,
        bytes.subrange(pos + a.len() as int, pos + a.len() + b.len()) == b,
{
    assert forall|k: int| 0 <= k < a.len() + b.len() implies bytes[pos + k] == (a + b)[k] by {
        assert(bytes.subrange(pos, pos + a.len() + b.len())[k] == bytes[pos + k]);
    }
    assert(bytes.subrange(pos, pos + a.len() as int) =~= a);
    assert forall|k: int| 0 <= k < b.len() implies bytes[pos + a.len() + k] == b[k] by {
        assert(bytes[pos + (a.len() + k)] == (a + b)[a.len() + k]);
    }
    assert(bytes.subrange(pos + a.len() as int, pos + a.len() + b.len()) =~= b);
}

/// Parsing the chunk that flushes a run of `run` identical pixels: the
/// decoder serves the previous pixel and is left with a budget of
/// `run - 1` more copies, re-storing the previous pixel in its cache.
proof fn lemma_parse_run_chunk(bytes: Seq<u8>, pos: int, px: Pixel, cache: Seq<Pixel>, run: u16)
    requires
        1 <= run <= MAX_RUN,
        cache.len() == 64,
        0 <= pos,
        pos + run_chunk_bytes(run).len() <= bytes.len(),
        bytes.subrange(pos, pos + run_chunk_bytes(run).len() as int) == run_chunk_bytes(run),
    ensures
        spec_parse(bytes, pos, px, 0, cache) == Some(
            ParseOut {
                pos: pos + run_chunk_bytes(run).len(),
                px,
                run: (run - 1) as u16,
                cache: cache.update(spec_slot(px), px),
            },
        ),
{
    let chunk = run_chunk_bytes(run);
    assert(bytes[pos] == chunk[0]) by {
        assert(bytes.subrange(pos, pos + chunk.len() as int)[0] == bytes[pos]);
    }
    if run < 33 {
        let v = (run - 1) as u8;
        assert(v < 32 ==> ((0x40u8 | v) & 0xc0 != 0 && (0x40u8 | v) & 0xe0 == 0x40 && ((0x40u8 | v)
            & 0x1f) == v)) by (bit_vector);
    } else {
        let v = (run - 33) as u16;
        assert(bytes[pos + 1] == chunk[1]) by {
            assert(bytes.subrange(pos, pos + chunk.len() as int)[1] == bytes[pos + 1]);
        }
        assert(v < 0x2000 ==> ((0x60u8 | ((v >> 8) as u8)) & 0xc0 != 0 && (0x60u8 | ((v >> 8)
            as u8)) & 0xe0 != 0x40 && (0x60u8 | ((v >> 8) as u8)) & 0xe0 == 0x60 && (((((0x60u8 | (
        (v >> 8) as u8)) & 0x1f) as u16) << 8) | (((v & 0xff) as u8) as u16)) == v)) by (
        bit_vector);
    }
}

/// Wrapping arithmetic undoes the encoder's bias: if the true channel
/// difference is `d - c`, adding the biased field back with 8-bit
/// wrapping recovers the channel.
proof fn lemma_wrap_delta(a: u8, b: u8, d: u8, c: u8)
    requires
        b - a == d - c,
    ensures
        a.wrapping_add(d.wrapping_sub(c)) == b,
{
}

/// Parsing the chunk the encoder emits for a pixel that differs from the
/// previous one: the decoder recovers exactly that pixel, stores it at
/// its cache slot, and the two caches stay in correspondence.
proof fn lemma_parse_px_chunk(
    bytes: Seq<u8>,
    pos: int,
    px: Pixel,
    prev: Pixel,
    ce: Seq<Pixel>,
    cd: Seq<Pixel>,
)
    requires
        px != prev,
        caches_agree(prev, ce, cd),
        0 <= pos,
        pos + px_chunk_bytes(px, prev, ce).len() <= bytes.len(),
        bytes.subrange(pos, pos + px_chunk_bytes(px, prev, ce).len() as int) == px_chunk_bytes(
            px,
            prev,
            ce,
        ),
    ensures
        spec_parse(bytes, pos, prev, 0, cd) == Some(
            ParseOut {
                pos: pos + px_chunk_bytes(px, prev, ce).len(),
                px,
                run: 0,
                cache: cd.update(spec_slot(px), px),
            },
        ),
        caches_agree(px, cache_after_encode(px, ce), cd.update(spec_slot(px), px)),
{
    let chunk = px_chunk_bytes(px, prev, ce);
    lemma_special_slots();
    assert(0 <= spec_hash(px) as int % 64 < 64);
    assert forall|k: int| 0 <= k < chunk.len() implies bytes[pos + k] == chunk[k] by {
        assert(bytes.subrange(pos, pos + chunk.len() as int)[k] == bytes[pos + k]);
    }
    let b1 = chunk[0];
    if cache_hit(px, ce) {
        // A cache hit: the one-byte index chunk. The caches agree at that
        // slot, for the one slot where they may differ holds the initial
        // previous pixel, which hashes elsewhere.
        let s = spec_slot_u8(px);
        assert(s < 64 ==> ((0x00u8 | s) & 0xc0 == 0 && ((0x00u8 | s) ^ 0x00u8) == s)) by (
        bit_vector);
        assert(cd[spec_slot(px)] == px);
        assert(cd.update(spec_slot(px), px) =~= cd.update(spec_slot(px), px));
    } else {
        let vr = px.r - prev.r;
        let vg = px.g - prev.g;
        let vb = px.b - prev.b;
        let va = px.a - prev.a;
        if -16 <= vr <= 15 && -16 <= vg <= 15 && -16 <= vb <= 15 && -16 <= va <= 15 {
            if va == 0 && -2 <= vr <= 1 && -2 <= vg <= 1 && -2 <= vb <= 1 {
                // The one-byte diff chunk: three 2-bit fields, bias 2.
                let x = (vr + 2) as u8;
                let y = (vg + 2) as u8;
                let z = (vb + 2) as u8;
                assert((x < 4 && y < 4 && z < 4) ==> {
                    let t = (0x80u8 | (x << 4) | (y << 2) | z) as u8;
                    &&& t & 0xc0 != 0
                    &&& t & 0xe0 != 0x40
                    &&& t & 0xe0 != 0x60
                    &&& t & 0xc0 == 0x80
                    &&& ((t >> 4) & 0x03) == x
                    &&& ((t >> 2) & 0x03) == y
                    &&& (t & 0x03) == z
                }) by (bit_vector);
                lemma_wrap_delta(prev.r, px.r, x, 2);
                lemma_wrap_delta(prev.g, px.g, y, 2);
                lemma_wrap_delta(prev.b, px.b, z, 2);
            } else if va == 0 && -8 <= vg <= 7 && -8 <= vb <= 7 {
                // The two-byte diff chunk: a 5-bit field and two 4-bit
                // fields, biases 16 and 8.
                let dr = (vr + 16) as u8;
                let dg = (vg + 8) as u8;
                let db = (vb + 8) as u8;
                assert((dr < 32 && dg < 16 && db < 16) ==> {
                    let t = (0xc0u8 | dr) as u8;
                    let u = ((dg << 4) | db) as u8;
                    &&& t & 0xc0 != 0
                    &&& t & 0xe0 != 0x40
                    &&& t & 0xe0 != 0x60
                    &&& t & 0xc0 != 0x80
                    &&& t & 0xe0 == 0xc0
                    &&& (t & 0x1f) == dr
                    &&& (u >> 4) == dg
                    &&& (u & 0x0f) == db
                }) by (bit_vector);
                lemma_wrap_delta(prev.r, px.r, dr, 16);
                lemma_wrap_delta(prev.g, px.g, dg, 8);
                lemma_wrap_delta(prev.b, px.b, db, 8);
            } else {
                // The three-byte diff chunk: four 5-bit fields, bias 16,
                // packed across the three bytes.
                let dr = (vr + 16) as u8;
                let dg = (vg + 16) as u8;
                let db = (vb + 16) as u8;
                let da = (va + 16) as u8;
                assert((dr < 32 && dg < 32 && db < 32 && da < 32) ==> {
                    let t = (0xe0u8 | (dr >> 1)) as u8;
                    let u = ((dr << 7) | (dg << 2) | (db >> 3)) as u8;
                    let v = ((db << 5) | da) as u8;
                    &&& t & 0xc0 != 0
                    &&& t & 0xe0 != 0x40
                    &&& t & 0xe0 != 0x60
                    &&& t & 0xc0 != 0x80
                    &&& t & 0xe0 != 0xc0
                    &&& t & 0xf0 == 0xe0
                    &&& (((t & 0x0f) << 1) | (u >> 7)) == dr
                    &&& ((u & 0x7c) >> 2) == dg
                    &&& (((u & 0x03) << 3) | ((v & 0xe0) >> 5)) == db
                    &&& (v & 0x1f) == da
                }) by (bit_vector);
                lemma_wrap_delta(prev.r, px.r, dr, 16);
                lemma_wrap_delta(prev.g, px.g, dg, 16);
                lemma_wrap_delta(prev.b, px.b, db, 16);
                lemma_wrap_delta(prev.a, px.a, da, 16);
            }
        } else {
            // The literal color chunk: presence bits in the tag, then the
            // raw values of exactly the changed channels, in order.
            let fr: u8 = if px.r != prev.r {
                8
            } else {
                0
            };
            let fg: u8 = if px.g != prev.g {
                4
            } else {
                0
            };
            let fb: u8 = if px.b != prev.b {
                2
            } else {
                0
            };
            let fa: u8 = if px.a != prev.a {
                1
            } else {
                0
            };
            assert(((fr == 8 || fr == 0) && (fg == 4 || fg == 0) && (fb == 2 || fb == 0) && (fa == 1
                || fa == 0)) ==> {
                let t = (0xf0u8 | fr | fg | fb | fa) as u8;
                &&& t & 0xc0 != 0
                &&& t & 0xe0 != 0x40
                &&& t & 0xe0 != 0x60
                &&& t & 0xc0 != 0x80
                &&& t & 0xe0 != 0xc0
                &&& t & 0xf0 != 0xe0
                &&& (t & 8) == fr
                &&& (t & 4) == fg
                &&& (t & 2) == fb
                &&& (t & 1) == fa
            }) by (bit_vector);
            let o_r: Seq<u8> = if px.r != prev.r {
                seq![px.r]
            } else {
                Seq::<u8>::empty()
            };
            let o_g: Seq<u8> = if px.g != prev.g {
                seq![px.g]
            } else {
                Seq::<u8>::empty()
            };
            let o_b: Seq<u8> = if px.b != prev.b {
                seq![px.b]
            } else {
                Seq::<u8>::empty()
            };
            let o_a: Seq<u8> = if px.a != prev.a {
                seq![px.a]
            } else {
                Seq::<u8>::empty()
            };
            let i_g = 1 + o_r.len();
            let i_b = i_g + o_g.len();
            let i_a = i_b + o_b.len();
            assert(chunk.len() == i_a + o_a.len());
            if px.r != prev.r {
                assert(chunk[1] == px.r);
            }
            if px.g != prev.g {
                assert(chunk[i_g as int] == px.g);
            }
            if px.b != prev.b {
                assert(chunk[i_b as int] == px.b);
            }
            if px.a != prev.a {
                assert(chunk[i_a as int] == px.a);
            }
        }
        // On a miss both sides store the pixel at the same slot, so the
        // caches keep their correspondence.
        assert(caches_agree(
            px,
            cache_after_encode(px, ce),
            cd.update(spec_slot(px), px),
        ));
    }
}

/// A decoder holding a run budget of `r` serves `r` copies of the
/// previous pixel without reading a byte, and then goes on as if the
/// budget had never existed.
proof fn lemma_decode_run_budget(
    bytes: Seq<u8>,
    pos: int,
    px: Pixel,
    r: u16,
    cache: Seq<Pixel>,
    m: nat,
)
    ensures
        spec_decode_n(bytes, pos, px, r, cache, r as nat + m) == match spec_decode_n(
            bytes,
            pos,
            px,
            0,
            cache,
            m,
        ) {
            None => None::<DecodeOut>,
            Some(d) => Some(DecodeOut { out: Seq::new(r as nat, |i: int| px) + d.out, ..d }),
        },
    decreases r,
{
    if r == 0 {
        match spec_decode_n(bytes, pos, px, 0, cache, m) {
            None => {},
            Some(d) => {
                assert(Seq::new(0, |i: int| px) + d.out =~= d.out);
            },
        }
    } else {
        lemma_decode_run_budget(bytes, pos, px, (r - 1) as u16, cache, m);
        match spec_decode_n(bytes, pos, px, 0, cache, m) {
            None => {},
            Some(d) => {
                assert(seq![px] + (Seq::new((r - 1) as nat, |i: int| px) + d.out) =~= Seq::new(
                    r as nat,
                    |i: int| px,
                ) + d.out);
            },
        }
    }
}

/// Whether the run-chunk re-store keeps the caches in correspondence:
/// after a run chunk the decoder stores `prev` at its slot, which either
/// already holds `prev` or is the slot-63 exception.
proof fn lemma_run_store_keeps_agreement(prev: Pixel, ce: Seq<Pixel>, cd: Seq<Pixel>)
    requires
        caches_agree(prev, ce, cd),
    ensures
        caches_agree(prev, ce, cd.update(spec_slot(prev), prev)),
{
    lemma_special_slots();
    if cd[spec_slot(prev)] == prev {
        assert(cd.update(spec_slot(prev), prev) =~= cd);
    }
}

/// Decoding across one run chunk: the decoder serves `run1` copies of
/// the previous pixel, stores it in its cache, and then continues as the
/// given tail does.
proof fn lemma_decode_after_run_chunk(
    bytes: Seq<u8>,
    pos: int,
    prev: Pixel,
    run1: u16,
    cd: Seq<Pixel>,
    m: nat,
    tail: DecodeOut,
)
    requires
        1 <= run1 <= MAX_RUN,
        cd.len() == 64,
        0 <= pos,
        pos + run_chunk_bytes(run1).len() <= bytes.len(),
        bytes.subrange(pos, pos + run_chunk_bytes(run1).len() as int) == run_chunk_bytes(run1),
        spec_decode_n(
            bytes,
            pos + run_chunk_bytes(run1).len(),
            prev,
            0,
            cd.update(spec_slot(prev), prev),
            m,
        ) == Some(tail),
    ensures
        spec_decode_n(bytes, pos, prev, 0, cd, run1 as nat + m) matches Some(d) && {
            &&& d.out == Seq::new(run1 as nat, |i: int| prev) + tail.out
            &&& d.pos == tail.pos
        },
{
    let pos1 = pos + run_chunk_bytes(run1).len();
    let cd1 = cd.update(spec_slot(prev), prev);
    lemma_parse_run_chunk(bytes, pos, prev, cd, run1);
    lemma_decode_run_budget(bytes, pos1, prev, (run1 - 1) as u16, cd1, m);
    assert(seq![prev] + (Seq::new((run1 - 1) as nat, |i: int| prev) + tail.out) =~= Seq::new(
        run1 as nat,
        |i: int| prev,
    ) + tail.out);
}

/// Decoding across the chunk of one differing pixel: the decoder serves
/// exactly that pixel, stores it, and then continues as the given tail
/// does; the caches keep their correspondence.
proof fn lemma_decode_after_px_chunk(
    bytes: Seq<u8>,
    pos: int,
    px: Pixel,
    prev: Pixel,
    ce: Seq<Pixel>,
    cd: Seq<Pixel>,
    m: nat,
    tail: DecodeOut,
)
    requires
        px != prev,
        caches_agree(prev, ce, cd),
        0 <= pos,
        pos + px_chunk_bytes(px, prev, ce).len() <= bytes.len(),
        bytes.subrange(pos, pos + px_chunk_bytes(px, prev, ce).len() as int) == px_chunk_bytes(
            px,
            prev,
            ce,
        ),
        spec_decode_n(
            bytes,
            pos + px_chunk_bytes(px, prev, ce).len(),
            px,
            0,
            cd.update(spec_slot(px), px),
            m,
        ) == Some(tail),
    ensures
        spec_decode_n(bytes, pos, prev, 0, cd, 1 + m) matches Some(d) && {
            &&& d.out == seq![px] + tail.out
            &&& d.pos == tail.pos
        },
        caches_agree(px, cache_after_encode(px, ce), cd.update(spec_slot(px), px)),
{
    lemma_parse_px_chunk(bytes, pos, px, prev, ce, cd);
}

/// The heart of the round trip: decoding the byte stream the encoder
/// emits for the remaining pixels — with a pending run of `run` copies of
/// `prev` not yet flushed — yields exactly those pending copies followed
/// by the remaining pixels, and consumes exactly the emitted bytes.
#[verifier::rlimit(100)]
#[verifier::spinoff_prover]
proof fn lemma_body_round_trip(
    bytes: Seq<u8>,
    pos: int,
    pixels: Seq<Pixel>,
    prev: Pixel,
    run: u16,
    ce: Seq<Pixel>,
    cd: Seq<Pixel>,
)
    requires
        caches_agree(prev, ce, cd),
        run < MAX_RUN,
        pixels.len() == 0 ==> run == 0,
        0 <= pos,
        pos + spec_encode_body(pixels, prev, run, ce).len() <= bytes.len(),
        bytes.subrange(pos, pos + spec_encode_body(pixels, prev, run, ce).len() as int)
            == spec_encode_body(pixels, prev, run, ce),
    ensures
        spec_decode_n(bytes, pos, prev, 0, cd, (run + pixels.len()) as nat) matches Some(d) && {
            &&& d.out == Seq::new(run as nat, |i: int| prev) + pixels
            &&& d.pos == pos + spec_encode_body(pixels, prev, run, ce).len()
        },
    decreases pixels.len(),
{
    let body = spec_encode_body(pixels, prev, run, ce);
    if pixels.len() == 0 {
        assert(Seq::new(0, |i: int| prev) + pixels =~= pixels);
    } else {
        let px = pixels[0];
        let rest = pixels.skip(1);
        let run1: u16 = if px == prev {
            (run + 1) as u16
        } else {
            run
        };
        let flush = run1 > 0 && (run1 == MAX_RUN || px != prev || pixels.len() == 1);
        let flushed = if flush {
            run_chunk_bytes(run1)
        } else {
            Seq::<u8>::empty()
        };
        let run2: u16 = if flush {
            0
        } else {
            run1
        };
        if px == prev {
            if flush {
                // The whole pending run, now `run1` long, is flushed
                // here: one run chunk, then the rest of the stream.
                let restbody = spec_encode_body(rest, px, 0, ce);
                assert(body == flushed + restbody);
                lemma_subrange_split(bytes, pos, flushed, restbody);
                let pos1 = pos + flushed.len();
                let cd1 = cd.update(spec_slot(prev), prev);
                lemma_run_store_keeps_agreement(prev, ce, cd);
                lemma_body_round_trip(bytes, pos1, rest, px, 0, ce, cd1);
                let tail = spec_decode_n(bytes, pos1, prev, 0, cd1, rest.len()).unwrap();
                lemma_decode_after_run_chunk(bytes, pos, prev, run1, cd, rest.len(), tail);
                assert(Seq::new(run1 as nat, |i: int| prev) + tail.out =~= Seq::new(
                    run as nat,
                    |i: int| prev,
                ) + pixels);
            } else {
                // The run keeps growing; no byte is emitted yet.
                assert(body == spec_encode_body(rest, px, run1, ce));
                lemma_body_round_trip(bytes, pos, rest, px, run1, ce, cd);
                assert(Seq::new(run1 as nat, |i: int| prev) + rest =~= Seq::new(
                    run as nat,
                    |i: int| prev,
                ) + pixels);
            }
        } else {
            // The pixel breaks the run: flush it if one is pending, then
            // emit the pixel's own chunk.
            let chunk = px_chunk_bytes(px, prev, ce);
            let ce1 = cache_after_encode(px, ce);
            let restbody = spec_encode_body(rest, px, 0, ce1);
            assert(body == flushed + (chunk + restbody));
            lemma_subrange_split(bytes, pos, flushed, chunk + restbody);
            let pos1 = pos + flushed.len();
            lemma_subrange_split(bytes, pos1, chunk, restbody);
            let pos2 = pos1 + chunk.len();
            if run > 0 {
                let cd1 = cd.update(spec_slot(prev), prev);
                lemma_run_store_keeps_agreement(prev, ce, cd);
                let cd2 = cd1.update(spec_slot(px), px);
                lemma_body_round_trip(bytes, pos2, rest, px, 0, ce1, cd2);
                let tail = spec_decode_n(bytes, pos2, px, 0, cd2, rest.len()).unwrap();
                lemma_decode_after_px_chunk(bytes, pos1, px, prev, ce, cd1, rest.len(), tail);
                let mid = spec_decode_n(bytes, pos1, prev, 0, cd1, 1 + rest.len()).unwrap();
                lemma_decode_after_run_chunk(bytes, pos, prev, run, cd, 1 + rest.len(), mid);
                assert(Seq::new(run as nat, |i: int| prev) + (seq![px] + tail.out) =~= Seq::new(
                    run as nat,
                    |i: int| prev,
                ) + pixels);
            } else {
                assert(flushed =~= Seq::<u8>::empty());
                assert(pos1 == pos);
                let cd2 = cd.update(spec_slot(px), px);
                lemma_body_round_trip(bytes, pos2, rest, px, 0, ce1, cd2);
                let tail = spec_decode_n(bytes, pos2, px, 0, cd2, rest.len()).unwrap();
                lemma_decode_after_px_chunk(bytes, pos1, px, prev, ce, cd, rest.len(), tail);
                assert(seq![px] + tail.out =~= Seq::new(run as nat, |i: int| prev) + pixels);
            }
        }
    }
}

/// Pulling `n` pixels yields exactly `n` pixels whenever it succeeds.
proof fn lemma_decode_n_count(bytes: Seq<u8>, pos: int, px: Pixel, run: u16, cache: Seq<Pixel>, n: nat)
    ensures
        spec_decode_n(bytes, pos, px, run, cache, n) matches Some(d) ==> d.out.len() == n,
    decreases n,
{
    if n > 0 {
        match spec_parse(bytes, pos, px, run, cache) {
            None => {},
            Some(p) => {
                lemma_decode_n_count(bytes, p.pos, p.px, p.run, p.cache, (n - 1) as nat);
            },
        }
    }
}

/// A successful decode always yields exactly `width * height` pixels,
/// whatever the byte stream was.
pub proof fn lemma_decode_yields_all_pixels(bytes: Seq<u8>)
    ensures
        spec_decode(bytes) matches Ok(t) ==> t.2.len() == t.0 * t.1,
{
    if let Ok(dims) = spec_decode_header(bytes) {
        lemma_decode_n_count(
            bytes,
            14,
            init_pixel(),
            0,
            init_cache(),
            (dims.0 * dims.1) as nat,
        );
    }
}

/// Reading back the four big-endian bytes of a word gives the word.
proof fn lemma_be_roundtrip(w: u32)
    ensures
        u32_of_be(
            (w >> 24) as u8,
            (w >> 16) as u8,
            (w >> 8) as u8,
            w as u8,
        ) == w,
{
    assert((((w >> 24) as u8 as u32) << 24) | (((w >> 16) as u8 as u32) << 16) | (((w >> 8) as u8
        as u32) << 8) | (w as u8 as u32) == w) by (bit_vector);
}

/// The header the encoder writes parses back to the same dimensions,
/// whatever bytes follow it.
proof fn lemma_header_parses(width: u32, height: u32, tail: Seq<u8>)
    requires
        width > 0,
        height > 0,
    ensures
        spec_decode_header(spec_header(width, height) + tail) == Ok::<(u32, u32), Error>(
            (width, height),
        ),
{
    let hdr = spec_header(width, height);
    let bytes = hdr + tail;
    assert(hdr.len() == 14);
    assert forall|k: int| 0 <= k < 14 implies bytes[k] == hdr[k] by {}
    assert(((0x71u32) << 24) | ((0x6fu32) << 16) | ((0x69u32) << 8) | (0x66u32) == 0x716f6966u32)
        by (bit_vector);
    lemma_be_roundtrip(width);
    lemma_be_roundtrip(height);
    assert(hdr[4] == (width >> 24) as u8 && hdr[5] == (width >> 16) as u8 && hdr[6] == (width >> 8)
        as u8 && hdr[7] == width as u8);
    assert(hdr[8] == (height >> 24) as u8 && hdr[9] == (height >> 16) as u8 && hdr[10] == (height
        >> 8) as u8 && hdr[11] == height as u8);
}

/// Round trip: for every positive `width` and `height` and every pixel
/// sequence of exactly `width * height` items, decoding the encoded
/// stream reproduces the dimensions and the pixels exactly.
pub proof fn lemma_round_trip(width: u32, height: u32, pixels: Seq<Pixel>)
    requires
        width > 0,
        height > 0,
        pixels.len() == width * height,
    ensures
        spec_decode(spec_encode(width, height, pixels)) == Ok::<(u32, u32, Seq<Pixel>), Error>(
            (width, height, pixels),
        ),
{
    let hdr = spec_header(width, height);
    let body = spec_encode_body(pixels, init_pixel(), 0, init_cache());
    let term = seq![0u8, 0u8, 0u8, 0u8];
    let bytes = spec_encode(width, height, pixels);
    assert(bytes =~= hdr + (body + term));
    lemma_header_parses(width, height, body + term);
    lemma_special_slots();
    assert(caches_agree(init_pixel(), init_cache(), init_cache()));
    assert forall|k: int| 0 <= k < body.len() implies bytes[14 + k] == body[k] by {
        assert((hdr + (body + term))[14 + k] == (body + term)[k]);
    }
    assert(bytes.subrange(14, 14 + body.len() as int) =~= body);
    lemma_body_round_trip(bytes, 14, pixels, init_pixel(), 0, init_cache(), init_cache());
    let d = spec_decode_n(
        bytes,
        14,
        init_pixel(),
        0,
        init_cache(),
        (width * height) as nat,
    ).unwrap();
    assert(Seq::new(0, |i: int| init_pixel()) + pixels =~= pixels);
}

/// Determinism: the encoded stream is a function of the image alone, so
/// two encodings of the same image are byte-identical.
pub proof fn lemma_encode_deterministic(
    width: u32,
    height: u32,
    pixels: Seq<Pixel>,
    out1: Seq<u8>,
    out2: Seq<u8>,
)
    requires
        out1 == spec_encode(width, height, pixels),
        out2 == spec_encode(width, height, pixels),
    ensures
        out1 == out2,
{
}

/// A maximal run of `n` copies of the previous pixel, broken by a pixel
/// that differs, becomes exactly one run chunk followed by the breaking
/// pixel's chunk — starting from a pending run of `run0`.
proof fn lemma_encode_run_then_break(prev: Pixel, q: Pixel, run0: u16, n: u16, cache: Seq<Pixel>)
    requires
        q != prev,
        cache.len() == 64,
        n >= 1,
        run0 + n <= MAX_RUN,
    ensures
        spec_encode_body(Seq::new(n as nat, |i: int| prev) + seq![q], prev, run0, cache)
            == run_chunk_bytes((run0 + n) as u16) + px_chunk_bytes(q, prev, cache),
    decreases n,
{
    reveal_with_fuel(spec_encode_body, 3);
    let pixels = Seq::new(n as nat, |i: int| prev) + seq![q];
    assert(pixels[0] == prev);
    assert(pixels.len() == n + 1);
    let rest = pixels.skip(1);
    let run1 = (run0 + 1) as u16;
    let chunk = px_chunk_bytes(q, prev, cache);
    if n == 1 {
        assert(rest =~= seq![q]);
        assert(seq![q].skip(1) =~= Seq::<Pixel>::empty());
        if run1 == MAX_RUN {
            // The run fills up exactly here and is flushed at once; the
            // breaking pixel then stands alone with no pending run.
            assert(spec_encode_body(seq![q], prev, 0, cache) =~= chunk);
            assert(spec_encode_body(pixels, prev, run0, cache) == run_chunk_bytes(run1)
                + spec_encode_body(seq![q], prev, 0, cache));
            assert(run_chunk_bytes(run1) + spec_encode_body(seq![q], prev, 0, cache)
                =~= run_chunk_bytes(run1) + chunk);
        } else {
            // The run is flushed by the breaking pixel itself.
            assert(spec_encode_body(pixels, prev, run0, cache) == spec_encode_body(
                seq![q],
                prev,
                run1,
                cache,
            ));
            assert(spec_encode_body(seq![q], prev, run1, cache) =~= run_chunk_bytes(run1) + chunk);
        }
    } else {
        assert(run1 != MAX_RUN);
        assert(rest =~= Seq::new((n - 1) as nat, |i: int| prev) + seq![q]);
        assert(spec_encode_body(pixels, prev, run0, cache) == spec_encode_body(
            rest,
            prev,
            run1,
            cache,
        ));
        lemma_encode_run_then_break(prev, q, run1, (n - 1) as u16, cache);
    }
}

/// Run boundary: a run of exactly `n` identical pixels broken by a
/// differing pixel is encoded as a single run chunk — one byte while
/// `n` is at most 32, two bytes from 33 on — followed by the breaking
/// pixel's own chunk.
pub proof fn lemma_run_boundary(prev: Pixel, q: Pixel, n: u16, cache: Seq<Pixel>)
    requires
        q != prev,
        cache.len() == 64,
        1 <= n <= MAX_RUN,
    ensures
        spec_encode_body(Seq::new(n as nat, |i: int| prev) + seq![q], prev, 0, cache)
            == run_chunk_bytes(n) + px_chunk_bytes(q, prev, cache),
        n <= 32 ==> run_chunk_bytes(n).len() == 1,
        n >= 33 ==> run_chunk_bytes(n).len() == 2,
{
    lemma_encode_run_then_break(prev, q, 0, n, cache);
}

/// Cache hit: after encoding pixel `p` and then a pixel `q` whose hash
/// slot differs from `p`'s, a renewed `p` is encoded as the one-byte
/// index chunk — not a diff or literal chunk.
pub proof fn lemma_cache_hit_reference(p: Pixel, q: Pixel, prev: Pixel, cache: Seq<Pixel>)
    requires
        cache.len() == 64,
        p != prev,
        q != p,
        spec_slot(q) != spec_slot(p),
    ensures
        ({
            let c1 = cache_after_encode(p, cache);
            let c2 = cache_after_encode(q, c1);
            &&& spec_encode_body(seq![p, q, p], prev, 0, cache) == px_chunk_bytes(p, prev, cache)
                + px_chunk_bytes(q, p, c1) + px_chunk_bytes(p, q, c2)
            &&& px_chunk_bytes(p, q, c2) == seq![crate::consts::INDEX | spec_slot_u8(p)]
            &&& px_chunk_bytes(p, q, c2).len() == 1
        }),
{
    reveal_with_fuel(spec_encode_body, 4);
    let c1 = cache_after_encode(p, cache);
    let c2 = cache_after_encode(q, c1);
    assert(c1[spec_slot(p)] == p);
    assert(c2[spec_slot(p)] == p);
    assert(cache_hit(p, c2));
    let pixels = seq![p, q, p];
    assert(pixels[0] == p);
    assert(pixels.skip(1) =~= seq![q, p]);
    assert(seq![q, p].skip(1) =~= seq![p]);
    assert(seq![p].skip(1) =~= Seq::<Pixel>::empty());
    assert(spec_encode_body(seq![p], q, 0, c2) =~= px_chunk_bytes(p, q, c2));
    assert(spec_encode_body(seq![q, p], p, 0, c1) =~= px_chunk_bytes(q, p, c1) + spec_encode_body(
        seq![p],
        q,
        0,
        c2,
    ));
    assert(spec_encode_body(seq![p, q, p], prev, 0, cache) =~= px_chunk_bytes(p, prev, cache)
        + spec_encode_body(seq![q, p], p, 0, c1));
    assert(spec_encode_body(seq![p, q, p], prev, 0, cache) =~= px_chunk_bytes(p, prev, cache)
        + px_chunk_bytes(q, p, c1) + px_chunk_bytes(p, q, c2));
}

/// Malformed header: a stream whose first four bytes are not the magic
/// marker fails with `InvalidHeader` carrying exactly those bytes,
/// whatever follows them.
pub proof fn lemma_malformed_header(bytes: Seq<u8>)
    requires
        bytes.len() >= 4,
        !(bytes[0] == 0x71 && bytes[1] == 0x6f && bytes[2] == 0x69 && bytes[3] == 0x66),
    ensures
        spec_decode(bytes) == Err::<(u32, u32, Seq<Pixel>), Error>(
            Error::InvalidHeader(bytes[0], bytes[1], bytes[2], bytes[3]),
        ),
{
    let b0 = bytes[0];
    let b1 = bytes[1];
    let b2 = bytes[2];
    let b3 = bytes[3];
    assert((((b0 as u32) << 24) | ((b1 as u32) << 16) | ((b2 as u32) << 8) | (b3 as u32)
        == 0x716f6966u32) ==> (b0 == 0x71 && b1 == 0x6f && b2 == 0x69 && b3 == 0x66)) by (
    bit_vector);
}

/// Zero dimension rejection: a stream with a well-formed marker but zero
/// width or height fails with `InvalidDimensions` before any pixel work.
pub proof fn lemma_zero_dimension_rejected(bytes: Seq<u8>)
    requires
        bytes.len() >= 14,
        bytes[0] == 0x71 && bytes[1] == 0x6f && bytes[2] == 0x69 && bytes[3] == 0x66,
        u32_of_be(bytes[4], bytes[5], bytes[6], bytes[7]) == 0 || u32_of_be(
            bytes[8],
            bytes[9],
            bytes[10],
            bytes[11],
        ) == 0,
    ensures
        spec_decode(bytes) == Err::<(u32, u32, Seq<Pixel>), Error>(Error::InvalidDimensions),
{
    assert(((0x71u32) << 24) | ((0x6fu32) << 16) | ((0x69u32) << 8) | (0x66u32) == 0x716f6966u32)
        by (bit_vector);
}

} // verus!
