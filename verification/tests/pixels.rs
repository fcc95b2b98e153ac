//! Tests of the pixel value type and of the lazy pixel sequence with its
//! adapters.

use qoi_codec::{decode, encode, Error, Pixel};

fn px(r: u8, g: u8, b: u8, a: u8) -> Pixel {
    Pixel::rgba(r, g, b, a)
}

fn encode_vec(w: usize, h: usize, pixels: &Vec<Pixel>) -> Vec<u8> {
    let mut out = Vec::new();
    encode(w, h, pixels, &mut out).expect("encode failed");
    out
}

#[test]
fn pixel_constructors() {
    assert_eq!(Pixel::transparent(), px(0, 0, 0, 0));
    assert_eq!(Pixel::rgb(1, 2, 3), px(1, 2, 3, 255));
    let p = px(9, 8, 7, 6);
    assert_eq!((p.r, p.g, p.b, p.a), (9, 8, 7, 6));
}

#[test]
fn pixel_hash_is_channel_xor() {
    assert_eq!(px(1, 2, 3, 4).hash(), 1 ^ 2 ^ 3 ^ 4);
    assert_eq!(px(0, 0, 0, 255).hash(), 255);
    assert_eq!(Pixel::transparent().hash(), 0);
}

#[test]
fn pack_and_unpack_round_trip() {
    let p = px(0x01, 0x02, 0x03, 0x04);
    assert_eq!(p.pack(), 0x0102_0304);
    assert_eq!(Pixel::unpack(0x0102_0304), p);
    assert_eq!(Pixel::unpack(px(255, 0, 128, 7).pack()), px(255, 0, 128, 7));
    assert_eq!(Pixel::unpack(0xdead_beef).pack(), 0xdead_beef);
}

#[test]
fn pixel_conversions() {
    let p = px(1, 2, 3, 4);
    assert_eq!(Pixel::from(0x0102_0304u32), p);
    assert_eq!(u32::from(p), 0x0102_0304);
    assert_eq!(Pixel::from((1u8, 2u8, 3u8, 4u8)), p);
    assert_eq!(<(u8, u8, u8, u8)>::from(p), (1, 2, 3, 4));
    assert_eq!(Pixel::from([1u8, 2u8, 3u8, 4u8]), p);
    assert_eq!(<[u8; 4]>::from(p), [1, 2, 3, 4]);
    let q: Pixel = 0xdead_beefu32.into();
    let w: u32 = q.into();
    assert_eq!(w, 0xdead_beef);
}

#[test]
fn pixels_pull_one_at_a_time() {
    let pixels = vec![px(1, 1, 1, 255), px(1, 1, 1, 255), px(9, 8, 7, 255)];
    let out = encode_vec(3, 1, &pixels);
    let (w, h, mut seq) = decode(out).expect("decode failed");
    assert_eq!((w, h), (3, 1));
    assert_eq!(seq.next(), Some(Ok(px(1, 1, 1, 255))));
    assert_eq!(seq.next(), Some(Ok(px(1, 1, 1, 255))));
    assert_eq!(seq.next(), Some(Ok(px(9, 8, 7, 255))));
    assert_eq!(seq.next(), None);
    assert_eq!(seq.next(), None);
}

#[test]
fn pixels_stop_for_good_after_an_error() {
    // Header for 2x1, but an empty body: the first pull fails, every
    // later pull reports exhaustion.
    let mut bytes = vec![0x71, 0x6f, 0x69, 0x66];
    bytes.extend_from_slice(&2u32.to_be_bytes());
    bytes.extend_from_slice(&1u32.to_be_bytes());
    bytes.push(4);
    bytes.push(0);
    let (_, _, mut seq) = decode(bytes).expect("decode failed");
    assert_eq!(seq.next(), Some(Err(Error::IoFailure)));
    assert_eq!(seq.next(), None);
}

#[test]
fn unwrapped_yields_bare_pixels() {
    let pixels = vec![px(1, 1, 1, 255), px(2, 2, 2, 255)];
    let out = encode_vec(2, 1, &pixels);
    let (_, _, seq) = decode(out).expect("decode failed");
    let mut it = seq.unwrapped();
    assert_eq!(it.next(), Some(px(1, 1, 1, 255)));
    assert_eq!(it.next(), Some(px(2, 2, 2, 255)));
    assert_eq!(it.next(), None);
}

#[test]
fn okay_swallows_errors_and_ends() {
    // A 3x1 header whose body encodes only one pixel before running out.
    let mut bytes = vec![0x71, 0x6f, 0x69, 0x66];
    bytes.extend_from_slice(&3u32.to_be_bytes());
    bytes.extend_from_slice(&1u32.to_be_bytes());
    bytes.push(4);
    bytes.push(0);
    bytes.push(0xbf); // one small-diff chunk
    let (_, _, seq) = decode(bytes).expect("decode failed");
    let mut it = seq.ok();
    assert_eq!(it.next(), Some(px(1, 1, 1, 255)));
    assert_eq!(it.next(), None);
    assert_eq!(it.next(), None);
}

#[test]
fn positioned_tracks_row_major_coordinates() {
    let pixels = vec![px(1, 1, 1, 255), px(2, 2, 2, 255), px(3, 3, 3, 255), px(4, 4, 4, 255)];
    let out = encode_vec(2, 2, &pixels);
    let (_, _, seq) = decode(out).expect("decode failed");
    let mut it = seq.positioned();
    assert_eq!(it.next(), Some((0, 0, Ok(px(1, 1, 1, 255)))));
    assert_eq!(it.next(), Some((1, 0, Ok(px(2, 2, 2, 255)))));
    assert_eq!(it.next(), Some((0, 1, Ok(px(3, 3, 3, 255)))));
    assert_eq!(it.next(), Some((1, 1, Ok(px(4, 4, 4, 255)))));
    assert_eq!(it.next(), None);
}

#[test]
fn positioned_over_unwrapped_pairs_positions_with_pixels() {
    let pixels = vec![px(1, 1, 1, 255), px(2, 2, 2, 255), px(3, 3, 3, 255), px(4, 4, 4, 255)];
    let out = encode_vec(2, 2, &pixels);
    let (_, _, seq) = decode(out).expect("decode failed");
    let mut it = seq.unwrapped().positioned();
    assert_eq!(it.next(), Some((0, 0, px(1, 1, 1, 255))));
    assert_eq!(it.next(), Some((1, 0, px(2, 2, 2, 255))));
    assert_eq!(it.next(), Some((0, 1, px(3, 3, 3, 255))));
    assert_eq!(it.next(), Some((1, 1, px(4, 4, 4, 255))));
    assert_eq!(it.next(), None);
}

#[test]
fn positioned_over_okay_ends_on_error() {
    let mut bytes = vec![0x71, 0x6f, 0x69, 0x66];
    bytes.extend_from_slice(&2u32.to_be_bytes());
    bytes.extend_from_slice(&2u32.to_be_bytes());
    bytes.push(4);
    bytes.push(0);
    bytes.push(0xbf);
    let (_, _, seq) = decode(bytes).expect("decode failed");
    let mut it = seq.ok().positioned();
    assert_eq!(it.next(), Some((0, 0, px(1, 1, 1, 255))));
    assert_eq!(it.next(), None);
}
