//! The decoder: consumes a byte stream and yields `(width, height, lazy
//! pixel sequence)`. Pixels are pulled one at a time; the first error is
//! terminal and permanently exhausts the sequence.

use vstd::prelude::*;

use crate::consts::{DIFF_16, DIFF_24, DIFF_8, INDEX, MAGIC, MASK_2, MASK_3, MASK_4, RUN_16, RUN_8};
use crate::error::Error;
use crate::model::{init_cache, init_pixel, new_cache, spec_decode, spec_decode_header,
    spec_decode_n, spec_parse, u32_of_be};
use crate::pixel::{spec_slot, Pixel};

verus! {

/// Read one byte, advancing the position. A short read fails without
/// moving the position.
fn read_u8(bytes: &Vec<u8>, pos: &mut usize) -> (r: Result<u8, Error>)
    requires
        *old(pos) <= bytes@.len(),
    ensures
        *old(pos) + 1 <= bytes@.len() ==> r == Ok::<u8, Error>(bytes@[*old(pos) as int])
            && *final(pos) == *old(pos) + 1,
        *old(pos) + 1 > bytes@.len() ==> r == Err::<u8, Error>(Error::IoFailure) && *final(pos)
            == *old(pos),
{
    if *pos < bytes.len() {
        let b = bytes[*pos];
        *pos = *pos + 1;
        Ok(b)
    } else {
        Err(Error::IoFailure)
    }
}

/// Read a big-endian word from four bytes, advancing the position. A
/// short read fails without moving the position.
fn read_u32(bytes: &Vec<u8>, pos: &mut usize) -> (r: Result<u32, Error>)
    requires
        *old(pos) <= bytes@.len(),
    ensures
        *old(pos) + 4 <= bytes@.len() ==> r == Ok::<u32, Error>(
            u32_of_be(
                bytes@[*old(pos) as int],
                bytes@[*old(pos) + 1],
                bytes@[*old(pos) + 2],
                bytes@[*old(pos) + 3],
            ),
        ) && *final(pos) == *old(pos) + 4,
        *old(pos) + 4 > bytes@.len() ==> r == Err::<u32, Error>(Error::IoFailure) && *final(pos)
            == *old(pos),
{
    if bytes.len() - *pos < 4 {
        return Err(Error::IoFailure);
    }
    let b0 = bytes[*pos];
    let b1 = bytes[*pos + 1];
    let b2 = bytes[*pos + 2];
    let b3 = bytes[*pos + 3];
    *pos = *pos + 4;
    Ok((b0 as u32) << 24 | (b1 as u32) << 16 | (b2 as u32) << 8 | (b3 as u32))
}

/// Decode the stream header of `bytes`. The return value is the image's
/// `width`, `height`, and a lazy sequence that parses the actual pixel
/// data on demand. A successful full decode always yields exactly
/// `width * height` pixels.
pub fn decode(bytes: Vec<u8>) -> (r: Result<(usize, usize, Pixels), Error>)
    ensures
        match spec_decode_header(bytes@) {
            Ok(dims) => {
                &&& r matches Ok(t)
                &&& t.0 == dims.0 as usize
                &&& t.1 == dims.1 as usize
                &&& t.2.wf()
                &&& t.2.bytes@ == bytes@
                &&& t.2.pos == 14
                &&& t.2.px == init_pixel()
                &&& t.2.run == 0
                &&& t.2.lookup@ == init_cache()
                &&& t.2.remaining == dims.0 * dims.1
                &&& t.2.width == dims.0 as usize
            },
            Err(e) => r matches Err(e2) && e2 == e,
        },
{
    let mut pos: usize = 0;

    // Parse the magic filetype marker.
    let magic = match read_u32(&bytes, &mut pos) {
        Ok(v) => v,
        Err(e) => {
            return Err(e);
        },
    };
    if magic != MAGIC {
        return Err(Error::InvalidHeader(bytes[0], bytes[1], bytes[2], bytes[3]));
    }

    // Parse the image size; the channel-count and colorspace bytes are
    // read past but carry no information the decoder needs.
    let w = match read_u32(&bytes, &mut pos) {
        Ok(v) => v,
        Err(e) => {
            return Err(e);
        },
    };
    let h = match read_u32(&bytes, &mut pos) {
        Ok(v) => v,
        Err(e) => {
            return Err(e);
        },
    };
    let channels = match read_u8(&bytes, &mut pos) {
        Ok(v) => v,
        Err(e) => {
            return Err(e);
        },
    };
    let color_space = match read_u8(&bytes, &mut pos) {
        Ok(v) => v,
        Err(e) => {
            return Err(e);
        },
    };
    let _ = channels;
    let _ = color_space;
    if w == 0 || h == 0 {
        return Err(Error::InvalidDimensions);
    }

    proof {
        assert((w as int) * (h as int) <= 0xffff_ffff * 0xffff_ffff) by (nonlinear_arith)
            requires
                w <= 0xffff_ffffu32,
                h <= 0xffff_ffffu32,
        ;
    }
    let remaining: u64 = (w as u64) * (h as u64);
    let width = w as usize;
    Ok(
        (
            width,
            h as usize,
            Pixels {
                bytes,
                pos,
                remaining,
                px: Pixel::rgba(0, 0, 0, 255),
                run: 0,
                lookup: new_cache(),
                width,
            },
        ),
    )
}

/// A lazy sequence that parses pixels from the encoded image's data
/// block, one pull at a time. Each pull returns one pixel or a terminal
/// error; after an error the sequence is permanently exhausted.
pub struct Pixels {
    /// The full byte stream being decoded.
    pub bytes: Vec<u8>,
    /// The read position within `bytes`.
    pub pos: usize,
    /// How many pixels are still owed: the sequence ends after exactly
    /// `width * height` pulls, whatever trails in the source.
    pub remaining: u64,
    /// The previous pixel: what runs repeat and diffs are applied to.
    pub px: Pixel,
    /// The budget of an active run chunk: pulls served without reading.
    pub run: u16,
    /// The 64-slot color cache, kept in lock-step with the encoder's.
    pub lookup: Vec<Pixel>,
    /// The image width, handed to the position-tracking adapter.
    pub width: usize,
}

impl Pixels {
    /// Well-formedness: the cache has its 64 slots and the read position
    /// lies within the byte stream.
    pub open spec fn wf(self) -> bool {
        &&& self.lookup@.len() == 64
        &&& self.pos <= self.bytes@.len()
    }

    /// One pull: serve an active run without reading, or read a tag byte
    /// and dispatch on it, narrowest masks first.
    fn parse(&mut self) -> (r: Result<Pixel, Error>)
        requires
            old(self).wf(),
            old(self).remaining > 0,
        ensures
            final(self).wf(),
            final(self).bytes == old(self).bytes,
            final(self).width == old(self).width,
            match spec_parse(
                old(self).bytes@,
                old(self).pos as int,
                old(self).px,
                old(self).run,
                old(self).lookup@,
            ) {
                Some(p) => {
                    &&& r == Ok::<Pixel, Error>(p.px)
                    &&& final(self).pos == p.pos
                    &&& final(self).px == p.px
                    &&& final(self).run == p.run
                    &&& final(self).lookup@ == p.cache
                    &&& final(self).remaining == old(self).remaining - 1
                },
                None => {
                    &&& r == Err::<Pixel, Error>(Error::IoFailure)
                    &&& *final(self) == *old(self)
                },
            },
    {
        // An active run repeats the previous pixel with no bytes read.
        if self.run > 0 {
            self.run = self.run - 1;
            self.remaining = self.remaining - 1;
            return Ok(self.px);
        }
        if self.pos >= self.bytes.len() {
            return Err(Error::IoFailure);
        }
        let b1 = self.bytes[self.pos];
        let avail = self.bytes.len() - self.pos;
        if b1 & MASK_2 == INDEX {
            // An indexed pixel: fetch it from the cache.
            proof {
                assert(b1 & 0xc0 == 0 ==> (b1 ^ 0) < 64) by (bit_vector);
            }
            self.px = self.lookup[(b1 ^ INDEX) as usize];
            self.pos = self.pos + 1;
        } else if b1 & MASK_3 == RUN_8 {
            // A short run: its length, minus the pixel served right now.
            self.run = (b1 & 0x1f) as u16;
            self.pos = self.pos + 1;
        } else if b1 & MASK_3 == RUN_16 {
            // A long run: a 13-bit length over two bytes, biased by 32.
            if avail < 2 {
                return Err(Error::IoFailure);
            }
            let b2 = self.bytes[self.pos + 1];
            proof {
                assert(((((b1 & 0x1f) as u16) << 8) | (b2 as u16)) < 0x2000) by (bit_vector);
            }
            self.run = ((((b1 & 0x1f) as u16) << 8) | (b2 as u16)) + 32;
            self.pos = self.pos + 2;
        } else if b1 & MASK_2 == DIFF_8 {
            // Three 2-bit deltas, bias 2, alpha unchanged.
            self.px.r = self.px.r.wrapping_add(((b1 >> 4) & 0x03).wrapping_sub(2));
            self.px.g = self.px.g.wrapping_add(((b1 >> 2) & 0x03).wrapping_sub(2));
            self.px.b = self.px.b.wrapping_add((b1 & 0x03).wrapping_sub(2));
            self.pos = self.pos + 1;
        } else if b1 & MASK_3 == DIFF_16 {
            // A 5-bit red delta and two 4-bit deltas, alpha unchanged.
            if avail < 2 {
                return Err(Error::IoFailure);
            }
            let b2 = self.bytes[self.pos + 1];
            self.px.r = self.px.r.wrapping_add((b1 & 0x1f).wrapping_sub(16));
            self.px.g = self.px.g.wrapping_add((b2 >> 4).wrapping_sub(8));
            self.px.b = self.px.b.wrapping_add((b2 & 0x0f).wrapping_sub(8));
            self.pos = self.pos + 2;
        } else if b1 & MASK_4 == DIFF_24 {
            // Four 5-bit deltas packed across three bytes.
            if avail < 3 {
                return Err(Error::IoFailure);
            }
            let b2 = self.bytes[self.pos + 1];
            let b3 = self.bytes[self.pos + 2];
            self.px.r = self.px.r.wrapping_add((((b1 & 0x0f) << 1) | (b2 >> 7)).wrapping_sub(16));
            self.px.g = self.px.g.wrapping_add(((b2 & 0x7c) >> 2).wrapping_sub(16));
            self.px.b = self.px.b.wrapping_add(
                (((b2 & 0x03) << 3) | ((b3 & 0xe0) >> 5)).wrapping_sub(16),
            );
            self.px.a = self.px.a.wrapping_add((b3 & 0x1f).wrapping_sub(16));
            self.pos = self.pos + 3;
        } else {
            // Every remaining tag is a literal color chunk; the masks
            // cover the whole tag space, so no byte is unrecognized.
            proof {
                assert((b1 & 0xc0 != 0 && b1 & 0xe0 != 0x40 && b1 & 0xe0 != 0x60 && b1 & 0xc0
                    != 0x80 && b1 & 0xe0 != 0xc0 && b1 & 0xf0 != 0xe0) ==> b1 & 0xf0 == 0xf0)
                    by (bit_vector);
            }
            let n: usize = (if b1 & 8 != 0 {
                1
            } else {
                0
            }) + (if b1 & 4 != 0 {
                1
            } else {
                0
            }) + (if b1 & 2 != 0 {
                1
            } else {
                0
            }) + (if b1 & 1 != 0 {
                1
            } else {
                0
            });
            if avail < 1 + n {
                return Err(Error::IoFailure);
            }
            let mut p = self.pos + 1;
            if b1 & 8 != 0 {
                self.px.r = self.bytes[p];
                p = p + 1;
            }
            if b1 & 4 != 0 {
                self.px.g = self.bytes[p];
                p = p + 1;
            }
            if b1 & 2 != 0 {
                self.px.b = self.bytes[p];
                p = p + 1;
            }
            if b1 & 1 != 0 {
                self.px.a = self.bytes[p];
                p = p + 1;
            }
            self.pos = p;
        }

        // Put the resulting pixel into the cache, mirroring the encoder.
        let slot = (self.px.hash() % 64) as usize;
        proof {
            assert(slot == spec_slot(self.px));
        }
        self.lookup[slot] = self.px;
        self.remaining = self.remaining - 1;
        Ok(self.px)
    }

    /// Iterate over only the successfully parsed pixels; the stream must
    /// be known to parse, since this adapter has no way to report an
    /// error.
    pub fn unwrapped(self) -> (r: Unwrapped)
        ensures
            r.pixels == self,
            r.width == self.width,
    {
        Unwrapped { width: self.width, pixels: self }
    }

    /// Iterate over only the successfully parsed pixels; the sequence
    /// silently ends if the parser encounters an error.
    pub fn ok(self) -> (r: Okay)
        ensures
            r.pixels == self,
            r.width == self.width,
    {
        Okay { width: self.width, pixels: self }
    }

    /// Iterate over the pixels while also supplying the position of each
    /// pixel in the resulting image.
    pub fn positioned(self) -> (r: Positioned<Pixels>)
        ensures
            r.pixels == self,
            r.width == self.width,
            r.x == 0,
            r.y == 0,
    {
        let width = self.width;
        Positioned::new(self, width)
    }

    /// Pull the next pixel: `None` once `width * height` pixels were
    /// served, `Some(Err(..))` once and then `None` forever if the source
    /// ran short.
    pub fn next(&mut self) -> (r: Option<Result<Pixel, Error>>)
        requires
            old(self).wf(),
        ensures
            final(self).wf(),
            final(self).bytes == old(self).bytes,
            final(self).width == old(self).width,
            old(self).remaining == 0 ==> r is None && *final(self) == *old(self),
            old(self).remaining > 0 ==> match spec_parse(
                old(self).bytes@,
                old(self).pos as int,
                old(self).px,
                old(self).run,
                old(self).lookup@,
            ) {
                Some(p) => {
                    &&& r == Some(Ok::<Pixel, Error>(p.px))
                    &&& final(self).pos == p.pos
                    &&& final(self).px == p.px
                    &&& final(self).run == p.run
                    &&& final(self).lookup@ == p.cache
                    &&& final(self).remaining == old(self).remaining - 1
                },
                None => {
                    &&& r == Some(Err::<Pixel, Error>(Error::IoFailure))
                    &&& final(self).remaining == 0
                    &&& final(self).pos == old(self).pos
                    &&& final(self).px == old(self).px
                    &&& final(self).run == old(self).run
                    &&& final(self).lookup == old(self).lookup
                },
            },
    {
        if self.remaining > 0 {
            let result = self.parse();
            if result.is_err() {
                // An error permanently exhausts the sequence.
                self.remaining = 0;
            }
            Some(result)
        } else {
            None
        }
    }
}

/// An adapter over `Pixels` that yields bare pixels. It may only be
/// pulled while the stream is known to parse: unlike `Okay`, it has no
/// way to signal an error.
pub struct Unwrapped {
    /// The underlying lazy pixel sequence.
    pub pixels: Pixels,
    /// The image width, handed to the position-tracking adapter.
    pub width: usize,
}

impl Unwrapped {
    /// Iterate over the pixels while also supplying the position of each
    /// pixel in the resulting image.
    pub fn positioned(self) -> (r: Positioned<Unwrapped>)
        ensures
            r.pixels == self,
            r.width == self.width,
            r.x == 0,
            r.y == 0,
    {
        let width = self.width;
        Positioned::new(self, width)
    }

    /// Pull the next pixel. The caller must know the upcoming chunk
    /// parses: there is no error channel here.
    pub fn next(&mut self) -> (r: Option<Pixel>)
        requires
            old(self).pixels.wf(),
            old(self).pixels.remaining > 0 ==> spec_parse(
                old(self).pixels.bytes@,
                old(self).pixels.pos as int,
                old(self).pixels.px,
                old(self).pixels.run,
                old(self).pixels.lookup@,
            ) is Some,
        ensures
            final(self).pixels.wf(),
            final(self).width == old(self).width,
            final(self).pixels.bytes == old(self).pixels.bytes,
            old(self).pixels.remaining == 0 ==> r is None && *final(self) == *old(self),
            old(self).pixels.remaining > 0 ==> match spec_parse(
                old(self).pixels.bytes@,
                old(self).pixels.pos as int,
                old(self).pixels.px,
                old(self).pixels.run,
                old(self).pixels.lookup@,
            ) {
                Some(p) => {
                    &&& r == Some(p.px)
                    &&& final(self).pixels.pos == p.pos
                    &&& final(self).pixels.px == p.px
                    &&& final(self).pixels.run == p.run
                    &&& final(self).pixels.lookup@ == p.cache
                    &&& final(self).pixels.remaining == old(self).pixels.remaining - 1
                },
                None => false,
            },
    {
        match self.pixels.next() {
            None => None,
            Some(res) => match res {
                Ok(p) => Some(p),
                Err(e) => {
                    let _ = e;
                    unreached()
                },
            },
        }
    }
}

/// An adapter over `Pixels` that yields bare pixels and silently ends if
/// the parser encounters an error. It is then up to the caller to check
/// whether the full `width * height` pixels arrived.
pub struct Okay {
    /// The underlying lazy pixel sequence.
    pub pixels: Pixels,
    /// The image width, handed to the position-tracking adapter.
    pub width: usize,
}

impl Okay {
    /// Iterate over the pixels while also supplying the position of each
    /// pixel in the resulting image.
    pub fn positioned(self) -> (r: Positioned<Okay>)
        ensures
            r.pixels == self,
            r.width == self.width,
            r.x == 0,
            r.y == 0,
    {
        let width = self.width;
        Positioned::new(self, width)
    }

    /// Pull the next pixel; a parse error is swallowed and ends the
    /// sequence for good.
    pub fn next(&mut self) -> (r: Option<Pixel>)
        requires
            old(self).pixels.wf(),
        ensures
            final(self).pixels.wf(),
            final(self).width == old(self).width,
            final(self).pixels.bytes == old(self).pixels.bytes,
            old(self).pixels.remaining == 0 ==> r is None && *final(self) == *old(self),
            old(self).pixels.remaining > 0 ==> match spec_parse(
                old(self).pixels.bytes@,
                old(self).pixels.pos as int,
                old(self).pixels.px,
                old(self).pixels.run,
                old(self).pixels.lookup@,
            ) {
                Some(p) => {
                    &&& r == Some(p.px)
                    &&& final(self).pixels.pos == p.pos
                    &&& final(self).pixels.px == p.px
                    &&& final(self).pixels.run == p.run
                    &&& final(self).pixels.lookup@ == p.cache
                    &&& final(self).pixels.remaining == old(self).pixels.remaining - 1
                },
                None => {
                    &&& r is None
                    &&& final(self).pixels.remaining == 0
                    &&& final(self).pixels.pos == old(self).pixels.pos
                    &&& final(self).pixels.px == old(self).pixels.px
                    &&& final(self).pixels.run == old(self).pixels.run
                    &&& final(self).pixels.lookup == old(self).pixels.lookup
                },
            },
    {
        match self.pixels.next() {
            None => None,
            Some(res) => match res {
                Ok(p) => Some(p),
                Err(e) => {
                    let _ = e;
                    None
                },
            },
        }
    }
}

/// An adapter that pairs each yielded item with the `(x, y)` position of
/// its pixel in the image, row-major.
pub struct Positioned<I> {
    /// The underlying sequence of items.
    pub pixels: I,
    /// The image width: how many columns a row holds.
    pub width: usize,
    /// The column of the next item.
    pub x: usize,
    /// The row of the next item.
    pub y: usize,
}

impl<I> Positioned<I> {
    /// Start tracking positions at the top-left corner.
    fn new(pixels: I, width: usize) -> (r: Self)
        ensures
            r.pixels == pixels,
            r.width == width,
            r.x == 0,
            r.y == 0,
    {
        Self { pixels, width, x: 0, y: 0 }
    }
}

/// How a position-tracking adapter advances: the column steps forward and
/// wraps to a new row at `width`.
pub open spec fn spec_advance<I>(s: Positioned<I>) -> (Positioned<I>)
    recommends
        s.x < s.width,
{
    if s.x + 1 == s.width {
        Positioned { x: 0, y: (s.y + 1) as usize, ..s }
    } else {
        Positioned { x: (s.x + 1) as usize, ..s }
    }
}

impl Positioned<Pixels> {
    /// Pull the next parse result together with its `(x, y)` position.
    pub fn next(&mut self) -> (r: Option<(usize, usize, Result<Pixel, Error>)>)
        requires
            old(self).pixels.wf(),
            old(self).x < old(self).width,
            old(self).y < usize::MAX,
        ensures
            final(self).pixels.wf(),
            final(self).width == old(self).width,
            final(self).x < final(self).width,
            old(self).pixels.remaining == 0 ==> r is None && *final(self) == *old(self),
            old(self).pixels.remaining > 0 ==> ({
                &&& final(self).x == spec_advance(*old(self)).x
                &&& final(self).y == spec_advance(*old(self)).y
                &&& match spec_parse(
                    old(self).pixels.bytes@,
                    old(self).pixels.pos as int,
                    old(self).pixels.px,
                    old(self).pixels.run,
                    old(self).pixels.lookup@,
                ) {
                    Some(p) => r == Some((old(self).x, old(self).y, Ok::<Pixel, Error>(p.px))),
                    None => r == Some(
                        (old(self).x, old(self).y, Err::<Pixel, Error>(Error::IoFailure)),
                    ),
                }
            }),
    {
        match self.pixels.next() {
            None => None,
            Some(p) => {
                let x = self.x;
                let y = self.y;
                self.x = self.x + 1;
                if self.x == self.width {
                    self.x = 0;
                    self.y = self.y + 1;
                }
                Some((x, y, p))
            },
        }
    }
}

impl Positioned<Unwrapped> {
    /// Pull the next pixel together with its `(x, y)` position. As with
    /// `Unwrapped` itself, the upcoming chunk must parse.
    pub fn next(&mut self) -> (r: Option<(usize, usize, Pixel)>)
        requires
            old(self).pixels.pixels.wf(),
            old(self).x < old(self).width,
            old(self).y < usize::MAX,
            old(self).pixels.pixels.remaining > 0 ==> spec_parse(
                old(self).pixels.pixels.bytes@,
                old(self).pixels.pixels.pos as int,
                old(self).pixels.pixels.px,
                old(self).pixels.pixels.run,
                old(self).pixels.pixels.lookup@,
            ) is Some,
        ensures
            final(self).pixels.pixels.wf(),
            final(self).width == old(self).width,
            final(self).x < final(self).width,
            old(self).pixels.pixels.remaining == 0 ==> r is None && *final(self) == *old(self),
            old(self).pixels.pixels.remaining > 0 ==> ({
                &&& final(self).x == spec_advance(*old(self)).x
                &&& final(self).y == spec_advance(*old(self)).y
                &&& match spec_parse(
                    old(self).pixels.pixels.bytes@,
                    old(self).pixels.pixels.pos as int,
                    old(self).pixels.pixels.px,
                    old(self).pixels.pixels.run,
                    old(self).pixels.pixels.lookup@,
                ) {
                    Some(p) => r == Some((old(self).x, old(self).y, p.px)),
                    None => false,
                }
            }),
    {
        match self.pixels.next() {
            None => None,
            Some(p) => {
                let x = self.x;
                let y = self.y;
                self.x = self.x + 1;
                if self.x == self.width {
                    self.x = 0;
                    self.y = self.y + 1;
                }
                Some((x, y, p))
            },
        }
    }
}

impl Positioned<Okay> {
    /// Pull the next pixel together with its `(x, y)` position; a parse
    /// error silently ends the sequence, as with `Okay` itself.
    pub fn next(&mut self) -> (r: Option<(usize, usize, Pixel)>)
        requires
            old(self).pixels.pixels.wf(),
            old(self).x < old(self).width,
            old(self).y < usize::MAX,
        ensures
            final(self).pixels.pixels.wf(),
            final(self).width == old(self).width,
            final(self).x < final(self).width,
            old(self).pixels.pixels.remaining == 0 ==> r is None && *final(self) == *old(self),
            old(self).pixels.pixels.remaining > 0 ==> match spec_parse(
                old(self).pixels.pixels.bytes@,
                old(self).pixels.pixels.pos as int,
                old(self).pixels.pixels.px,
                old(self).pixels.pixels.run,
                old(self).pixels.pixels.lookup@,
            ) {
                Some(p) => {
                    &&& r == Some((old(self).x, old(self).y, p.px))
                    &&& final(self).x == spec_advance(*old(self)).x
                    &&& final(self).y == spec_advance(*old(self)).y
                },
                None => r is None && final(self).pixels.pixels.remaining == 0,
            },
    {
        match self.pixels.next() {
            None => None,
            Some(p) => {
                let x = self.x;
                let y = self.y;
                self.x = self.x + 1;
                if self.x == self.width {
                    self.x = 0;
                    self.y = self.y + 1;
                }
                Some((x, y, p))
            },
        }
    }
}

/// Decode the image, filling `output` with the image's pixels. Returns
/// the image's dimensions; on an error, pixels decoded before the failure
/// remain in `output`.
#[verifier::loop_isolation(false)]
pub fn decode_into_vec(bytes: Vec<u8>, output: &mut Vec<Pixel>) -> (r: Result<
    (usize, usize),
    Error,
>)
    ensures
        match spec_decode(bytes@) {
            Ok(t) => r == Ok::<(usize, usize), Error>((t.0 as usize, t.1 as usize))
                && final(output)@ == t.2,
            Err(e) => r matches Err(e2) && e2 == e,
        },
{
    let ghost bs = bytes@;
    let (w, h, mut pixels) = match decode(bytes) {
        Ok(t) => t,
        Err(e) => {
            return Err(e);
        },
    };
    output.clear();
    let ghost n0 = pixels.remaining as nat;
    let ghost total = spec_decode_n(bs, 14, init_pixel(), 0, init_cache(), n0);

    while pixels.remaining > 0
        invariant
            pixels.wf(),
            pixels.bytes@ == bs,
            total == spec_decode_n(bs, 14, init_pixel(), 0, init_cache(), n0),
            match spec_decode_n(
                bs,
                pixels.pos as int,
                pixels.px,
                pixels.run,
                pixels.lookup@,
                pixels.remaining as nat,
            ) {
                Some(d) => total matches Some(td) && output@ + d.out == td.out,
                None => total is None,
            },
        decreases pixels.remaining,
    {
        let ghost pre = pixels;
        match pixels.next() {
            Some(res) => match res {
                Ok(p) => {
                    output.push(p);
                    proof {
                        let sp = spec_parse(bs, pre.pos as int, pre.px, pre.run, pre.lookup@);
                        assert(sp matches Some(q) && q.px == p);
                    }
                },
                Err(e) => {
                    proof {
                        assert(total is None);
                    }
                    return Err(e);
                },
            },
            None => {
                // `remaining > 0` guarantees a pull yields something.
                return unreached();
            },
        }
    }
    Ok((w, h))
}

} // verus!
