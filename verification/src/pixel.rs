//! The pixel value type: four independent 8-bit channels, equality by
//! exact match, and a cheap 8-bit hash used to address the color cache.

use vstd::prelude::*;

verus! {

/// An RGBA pixel.
#[derive(Default, Copy, Clone, Eq, PartialEq, Structural, Debug, Hash)]
pub struct Pixel {
    pub r: u8,
    pub g: u8,
    pub b: u8,
    pub a: u8,
}

/// The 8-bit hash of a pixel: the XOR of its four channels.
pub open spec fn spec_hash(p: Pixel) -> u8 {
    p.r ^ p.g ^ p.b ^ p.a
}

/// The cache slot a pixel is addressed at: its hash, modulo the 64 slots.
pub open spec fn spec_slot(p: Pixel) -> int {
    spec_hash(p) as int % 64
}

impl Pixel {
    /// A transparent pixel (0, 0, 0, 0).
    #[inline]
    pub fn transparent() -> (p: Self)
        ensures
            p == (Pixel { r: 0, g: 0, b: 0, a: 0 }),
    {
        Self::rgba(0, 0, 0, 0)
    }

    /// Create a new pixel.
    #[inline]
    pub fn rgba(r: u8, g: u8, b: u8, a: u8) -> (p: Self)
        ensures
            p == (Pixel { r, g, b, a }),
    {
        Self { r, g, b, a }
    }

    /// Create an RGB pixel with a full (255) alpha channel.
    #[inline]
    pub fn rgb(r: u8, g: u8, b: u8) -> (p: Self)
        ensures
            p == (Pixel { r, g, b, a: 255u8 }),
    {
        Self::rgba(r, g, b, 255)
    }

    /// Hash the pixel's RGBA components together. The encoder and decoder
    /// use this to address slots of the running color cache.
    #[inline]
    pub fn hash(self) -> (h: u8)
        ensures
            h == spec_hash(self),
    {
        self.r ^ self.g ^ self.b ^ self.a
    }

    /// Pack the pixel into a 32-bit RGBA integer.
    #[inline]
    pub fn pack(self) -> (w: u32)
        ensures
            w == spec_pack(self),
    {
        (self.r as u32) << 24 | (self.g as u32) << 16 | (self.b as u32) << 8 | (self.a as u32)
    }

    /// Unpack the pixel from a 32-bit RGBA integer.
    #[inline]
    pub fn unpack(packed: u32) -> (p: Self)
        ensures
            p == spec_unpack(packed),
    {
        Self {
            r: (packed >> 24) as u8,
            g: (packed >> 16) as u8,
            b: (packed >> 8) as u8,
            a: packed as u8,
        }
    }
}

impl From<u32> for Pixel {
    /// Unpack the pixel from a 32-bit RGBA integer.
    fn from(val: u32) -> (p: Self) {
        Self::unpack(val)
    }
}

impl vstd::std_specs::convert::FromSpecImpl<u32> for Pixel {
    open spec fn obeys_from_spec() -> bool {
        true
    }

    open spec fn from_spec(val: u32) -> Self {
        spec_unpack(val)
    }
}

impl From<Pixel> for u32 {
    /// Pack the pixel into a 32-bit RGBA integer.
    fn from(p: Pixel) -> (w: Self) {
        p.pack()
    }
}

impl vstd::std_specs::convert::FromSpecImpl<Pixel> for u32 {
    open spec fn obeys_from_spec() -> bool {
        true
    }

    open spec fn from_spec(p: Pixel) -> Self {
        spec_pack(p)
    }
}

impl From<(u8, u8, u8, u8)> for Pixel {
    /// Take the four channels from a tuple, in r, g, b, a order.
    fn from(t: (u8, u8, u8, u8)) -> (p: Self) {
        Self { r: t.0, g: t.1, b: t.2, a: t.3 }
    }
}

impl vstd::std_specs::convert::FromSpecImpl<(u8, u8, u8, u8)> for Pixel {
    open spec fn obeys_from_spec() -> bool {
        true
    }

    open spec fn from_spec(t: (u8, u8, u8, u8)) -> Self {
        Pixel { r: t.0, g: t.1, b: t.2, a: t.3 }
    }
}

impl From<Pixel> for (u8, u8, u8, u8) {
    /// Hand the four channels out as a tuple, in r, g, b, a order.
    fn from(p: Pixel) -> (t: Self) {
        (p.r, p.g, p.b, p.a)
    }
}

impl vstd::std_specs::convert::FromSpecImpl<Pixel> for (u8, u8, u8, u8) {
    open spec fn obeys_from_spec() -> bool {
        true
    }

    open spec fn from_spec(p: Pixel) -> Self {
        (p.r, p.g, p.b, p.a)
    }
}

impl From<[u8; 4]> for Pixel {
    /// Take the four channels from an array, in r, g, b, a order.
    fn from(c: [u8; 4]) -> (p: Self) {
        Self { r: c[0], g: c[1], b: c[2], a: c[3] }
    }
}

impl vstd::std_specs::convert::FromSpecImpl<[u8; 4]> for Pixel {
    open spec fn obeys_from_spec() -> bool {
        true
    }

    open spec fn from_spec(c: [u8; 4]) -> Self {
        Pixel { r: c[0], g: c[1], b: c[2], a: c[3] }
    }
}

impl From<Pixel> for [u8; 4] {
    /// Hand the four channels out as an array, in r, g, b, a order.
    fn from(p: Pixel) -> (c: Self)
        ensures
            c[0] == p.r && c[1] == p.g && c[2] == p.b && c[3] == p.a,
    {
        [p.r, p.g, p.b, p.a]
    }
}

impl vstd::std_specs::convert::FromSpecImpl<Pixel> for [u8; 4] {
    open spec fn obeys_from_spec() -> bool {
        true
    }

    open spec fn from_spec(p: Pixel) -> Self {
        [p.r, p.g, p.b, p.a]
    }
}

/// The 32-bit RGBA word a pixel packs into.
pub open spec fn spec_pack(p: Pixel) -> u32 {
    (p.r as u32) << 24 | (p.g as u32) << 16 | (p.b as u32) << 8 | (p.a as u32)
}

/// The pixel a 32-bit RGBA word unpacks into.
pub open spec fn spec_unpack(w: u32) -> Pixel {
    Pixel { r: (w >> 24) as u8, g: (w >> 16) as u8, b: (w >> 8) as u8, a: w as u8 }
}

/// Packing a pixel and unpacking the word gives the pixel back.
pub proof fn lemma_pack_unpack(p: Pixel)
    ensures
        spec_unpack(spec_pack(p)) == p,
{
    let r = p.r;
    let g = p.g;
    let b = p.b;
    let a = p.a;
    let w = spec_pack(p);
    assert(w == (r as u32) << 24 | (g as u32) << 16 | (b as u32) << 8 | (a as u32) ==> {
        &&& (w >> 24) as u8 == r
        &&& (w >> 16) as u8 == g
        &&& (w >> 8) as u8 == b
        &&& w as u8 == a
    }) by (bit_vector);
}

/// Unpacking a word and packing the pixel gives the word back.
pub proof fn lemma_unpack_pack(w: u32)
    ensures
        spec_pack(spec_unpack(w)) == w,
{
    assert(((w >> 24) as u8 as u32) << 24 | ((w >> 16) as u8 as u32) << 16 | ((w >> 8) as u8
        as u32) << 8 | (w as u8 as u32) == w) by (bit_vector);
}

} // verus!
