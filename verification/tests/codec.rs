//! End-to-end tests of the codec: exact wire bytes for each chunk kind,
//! the round trip, and every error variant.

use qoi_codec::{decode, decode_into_vec, encode, Error, Pixel};

fn px(r: u8, g: u8, b: u8, a: u8) -> Pixel {
    Pixel::rgba(r, g, b, a)
}

/// The 14 header bytes for a given width and height.
fn header(w: u32, h: u32) -> Vec<u8> {
    let mut v = vec![0x71, 0x6f, 0x69, 0x66];
    v.extend_from_slice(&w.to_be_bytes());
    v.extend_from_slice(&h.to_be_bytes());
    v.push(4);
    v.push(0);
    v
}

fn encode_vec(w: usize, h: usize, pixels: &Vec<Pixel>) -> Vec<u8> {
    let mut out = Vec::new();
    let n = encode(w, h, pixels, &mut out).expect("encode failed");
    assert_eq!(n, out.len());
    out
}

#[test]
fn two_black_pixels_encode_to_one_short_run() {
    // A 2x1 image of two opaque black pixels: header, one short-run
    // chunk of length 2, and the 4-byte terminator.
    let pixels = vec![px(0, 0, 0, 255), px(0, 0, 0, 255)];
    let out = encode_vec(2, 1, &pixels);
    let mut expected = header(2, 1);
    expected.push(0x40 | 1);
    expected.extend_from_slice(&[0, 0, 0, 0]);
    assert_eq!(out, expected);

    let mut back = Vec::new();
    let dims = decode_into_vec(out, &mut back).expect("decode failed");
    assert_eq!(dims, (2, 1));
    assert_eq!(back, pixels);
}

#[test]
fn run_of_32_takes_one_byte() {
    // 32 pixels equal to the initial previous pixel, then a breaker:
    // one 1-byte short-run chunk, then the breaker's chunk.
    let mut pixels = vec![px(0, 0, 0, 255); 32];
    pixels.push(px(255, 0, 0, 255));
    let out = encode_vec(33, 1, &pixels);
    assert_eq!(out[14], 0x40 | 31);
    // The breaker differs by +255 in red: a literal chunk flagging red.
    assert_eq!(out[15], 0xf0 | 8);
    assert_eq!(out[16], 255);
    assert_eq!(out.len(), 14 + 1 + 2 + 4);
}

#[test]
fn run_of_33_takes_two_bytes() {
    // 33 identical pixels force the 2-byte long-run chunk.
    let pixels = vec![px(0, 0, 0, 255); 33];
    let out = encode_vec(33, 1, &pixels);
    assert_eq!(&out[14..16], &[0x60, 0x00]);
    assert_eq!(out.len(), 14 + 2 + 4);

    let mut back = Vec::new();
    assert_eq!(decode_into_vec(out, &mut back), Ok((33, 1)));
    assert_eq!(back, pixels);
}

#[test]
fn long_run_length_field_is_biased_by_33() {
    let pixels = vec![px(0, 0, 0, 255); 34];
    let out = encode_vec(34, 1, &pixels);
    assert_eq!(&out[14..16], &[0x60, 0x01]);
}

#[test]
fn repeated_color_is_referenced_from_the_cache() {
    // P, then Q in a different hash bucket, then P again: the second P
    // becomes a 1-byte index chunk, not a diff or literal chunk.
    let p = px(10, 10, 10, 255); // hash 245, slot 53
    let q = px(11, 11, 11, 255); // hash 244, slot 52
    let pixels = vec![p, q, p];
    let out = encode_vec(3, 1, &pixels);
    // P from opaque black: deltas (10,10,10,0) need the 3-byte diff.
    // Q from P: deltas (1,1,1,0) fit the 1-byte diff: 0x80|0x3f.
    assert_eq!(out[17], 0xbf);
    // The second P: index chunk for slot 53.
    assert_eq!(out[18], 53);
    assert_eq!(out.len(), 14 + 3 + 1 + 1 + 4);

    let mut back = Vec::new();
    assert_eq!(decode_into_vec(out, &mut back), Ok((3, 1)));
    assert_eq!(back, pixels);
}

#[test]
fn small_deltas_pack_into_one_byte() {
    let pixels = vec![px(1, 1, 1, 255)];
    let out = encode_vec(1, 1, &pixels);
    assert_eq!(out[14], 0x80 | (3 << 4) | (3 << 2) | 3);
    assert_eq!(out.len(), 14 + 1 + 4);
}

#[test]
fn medium_deltas_pack_into_two_bytes() {
    // Deltas (10, 5, 0, 0): red fits 5 bits, green and blue 4 bits.
    let pixels = vec![px(10, 5, 0, 255)];
    let out = encode_vec(1, 1, &pixels);
    assert_eq!(&out[14..16], &[0xc0 | 26, (13 << 4) | 8]);
    assert_eq!(out.len(), 14 + 2 + 4);

    let mut back = Vec::new();
    assert_eq!(decode_into_vec(out, &mut back), Ok((1, 1)));
    assert_eq!(back, pixels);
}

#[test]
fn wide_deltas_pack_into_three_bytes() {
    // Deltas (15, 0, 0, -15): all four channels need 5 bits.
    let pixels = vec![px(15, 0, 0, 240)];
    let out = encode_vec(1, 1, &pixels);
    assert_eq!(&out[14..17], &[0xe0 | 15, 0xc2, 0x01]);
    assert_eq!(out.len(), 14 + 3 + 4);

    let mut back = Vec::new();
    assert_eq!(decode_into_vec(out, &mut back), Ok((1, 1)));
    assert_eq!(back, pixels);
}

#[test]
fn literal_chunk_carries_only_changed_channels() {
    // From opaque black, red jumps by 200 and alpha drops to 7: only
    // those two channels are flagged and carried.
    let pixels = vec![px(200, 0, 0, 7)];
    let out = encode_vec(1, 1, &pixels);
    assert_eq!(&out[14..17], &[0xf0 | 8 | 1, 200, 7]);
    assert_eq!(out.len(), 14 + 3 + 4);

    let mut back = Vec::new();
    assert_eq!(decode_into_vec(out, &mut back), Ok((1, 1)));
    assert_eq!(back, pixels);
}

#[test]
fn colliding_hash_buckets_overwrite_the_cache_slot() {
    // A and B share hash slot 53; the cache policy overwrites on a miss,
    // so no index chunk appears and the round trip still holds.
    let a = px(10, 10, 10, 255);
    let b = px(10, 0, 0, 255);
    let pixels = vec![a, b, a];
    let out = encode_vec(3, 1, &pixels);
    // Three 3-byte diff chunks: no 1-byte index chunk anywhere.
    assert_eq!(out.len(), 14 + 9 + 4);

    let mut back = Vec::new();
    assert_eq!(decode_into_vec(out, &mut back), Ok((3, 1)));
    assert_eq!(back, pixels);
}

#[test]
fn encoder_cache_updates_on_miss_only() {
    // The initial previous pixel (opaque black, slot 63) is absorbed
    // into a run and never stored by the encoder: when it reappears
    // later it is a cache miss and gets a full chunk, not an index
    // chunk. An encoder that stored the previous pixel on every step
    // would emit a 1-byte index chunk (byte 63) here instead.
    let p0 = px(0, 0, 0, 255);
    let x = px(100, 0, 0, 255);
    let pixels = vec![p0, x, p0];
    let out = encode_vec(3, 1, &pixels);
    assert_eq!(
        &out[14..19],
        &[0x40, 0xf0 | 8, 100, 0xf0 | 8, 0],
        "the second opaque black pixel must be re-encoded, not cache-referenced"
    );

    let mut back = Vec::new();
    assert_eq!(decode_into_vec(out, &mut back), Ok((3, 1)));
    assert_eq!(back, pixels);
}

#[test]
fn round_trip_mixed_image() {
    // An image that exercises every chunk kind: a long run, short runs,
    // all three diff widths, literals, and cache references.
    let mut pixels = Vec::new();
    for _ in 0..40 {
        pixels.push(px(0, 0, 0, 255));
    }
    pixels.push(px(1, 0, 0, 255));
    pixels.push(px(1, 200, 0, 255));
    pixels.push(px(3, 195, 4, 255));
    pixels.push(px(13, 185, 14, 250));
    for _ in 0..4 {
        pixels.push(px(13, 185, 14, 250));
    }
    pixels.push(px(1, 0, 0, 255));
    pixels.push(px(0, 0, 0, 0));
    for i in 0..10u8 {
        pixels.push(px(i, i.wrapping_mul(7), 255 - i, 100 + i));
    }
    assert_eq!(pixels.len(), 60);
    let out = encode_vec(10, 6, &pixels);
    let mut back = Vec::new();
    assert_eq!(decode_into_vec(out, &mut back), Ok((10, 6)));
    assert_eq!(back, pixels);
}

#[test]
fn encoding_is_deterministic() {
    let pixels = vec![px(9, 8, 7, 6), px(9, 8, 7, 6), px(1, 2, 3, 4), px(200, 100, 50, 25)];
    let out1 = encode_vec(2, 2, &pixels);
    let out2 = encode_vec(2, 2, &pixels);
    assert_eq!(out1, out2);
}

#[test]
fn trailing_bytes_after_terminator_are_ignored() {
    let pixels = vec![px(5, 5, 5, 255)];
    let mut out = encode_vec(1, 1, &pixels);
    out.extend_from_slice(&[0xde, 0xad, 0xbe, 0xef]);
    let mut back = Vec::new();
    assert_eq!(decode_into_vec(out, &mut back), Ok((1, 1)));
    assert_eq!(back, pixels);
}

#[test]
fn extra_pixels_are_never_consumed() {
    let one = vec![px(5, 5, 5, 255)];
    let many = vec![px(5, 5, 5, 255), px(1, 2, 3, 4), px(9, 9, 9, 9)];
    assert_eq!(encode_vec(1, 1, &one), encode_vec(1, 1, &many));
}

#[test]
fn short_pixel_source_is_rejected() {
    let pixels = vec![px(0, 0, 0, 255); 3];
    let mut out = Vec::new();
    assert_eq!(encode(2, 2, &pixels, &mut out), Err(Error::IteratorExhausted));
    assert!(out.is_empty());
}

#[test]
fn zero_dimensions_are_rejected_by_encode() {
    let pixels = vec![px(0, 0, 0, 255)];
    let mut out = Vec::new();
    assert_eq!(encode(0, 5, &pixels, &mut out), Err(Error::InvalidDimensions));
    assert_eq!(encode(5, 0, &pixels, &mut out), Err(Error::InvalidDimensions));
    assert!(out.is_empty());
}

#[test]
fn zero_dimensions_are_rejected_by_decode() {
    let mut bytes = header(0, 7);
    bytes.extend_from_slice(&[0, 0, 0, 0]);
    assert!(matches!(decode(bytes), Err(Error::InvalidDimensions)));

    let mut bytes = header(7, 0);
    bytes.extend_from_slice(&[0, 0, 0, 0]);
    assert!(matches!(decode(bytes), Err(Error::InvalidDimensions)));
}

#[test]
fn wrong_magic_is_rejected_with_the_bytes_found() {
    let mut bytes = b"nope".to_vec();
    bytes.extend_from_slice(&header(1, 1)[4..]);
    match decode(bytes) {
        Err(Error::InvalidHeader(a, b, c, d)) => {
            assert_eq!((a, b, c, d), (b'n', b'o', b'p', b'e'));
        },
        other => panic!("expected InvalidHeader, got {:?}", other.is_ok()),
    }
}

#[test]
fn truncated_header_is_an_io_failure() {
    assert!(matches!(decode(vec![]), Err(Error::IoFailure)));
    assert!(matches!(decode(vec![0x71, 0x6f]), Err(Error::IoFailure)));
    // The magic parses but the size fields are cut short.
    assert!(matches!(
        decode(vec![0x71, 0x6f, 0x69, 0x66, 0, 0]),
        Err(Error::IoFailure)
    ));
}

#[test]
fn truncated_body_is_an_io_failure() {
    // A well-formed header for a 2x1 image with no body at all.
    let bytes = header(2, 1);
    let mut back = Vec::new();
    assert_eq!(decode_into_vec(bytes, &mut back), Err(Error::IoFailure));
}

#[test]
fn magic_check_precedes_size_check() {
    // Garbage magic and a truncated remainder: the magic error wins.
    let bytes = vec![1, 2, 3, 4, 5];
    assert!(matches!(decode(bytes), Err(Error::InvalidHeader(1, 2, 3, 4))));
}

#[test]
fn error_descriptions_are_nonempty() {
    assert!(!Error::IoFailure.describe().is_empty());
    assert!(!Error::IteratorExhausted.describe().is_empty());
    assert!(!Error::InvalidHeader(0, 1, 2, 3).describe().is_empty());
    assert!(!Error::InvalidDimensions.describe().is_empty());
}
