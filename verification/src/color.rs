//! Colours of a raster and the two questions asked of them: whether a pixel
//! still holds terrain that can be eroded, and whether it stops an actor.

use vstd::prelude::*;

verus! {

/// The sum of the colour channels of pure white.
pub const WHITE_SUM: u16 = 765;

/// One pixel: red, green, blue and alpha, a byte each.
#[derive(Clone, Copy, Debug, PartialEq, Eq, Structural)]
pub struct Rgba {
    pub r: u8,
    pub g: u8,
    pub b: u8,
    pub a: u8,
}

/// The sum of the three colour channels of `pixel`; alpha does not count.
pub open spec fn rgb_sum(pixel: Rgba) -> int {
    pixel.r as int + pixel.g as int + pixel.b as int
}

/// Terrain that erosion may still wear down: any pixel that is not black.
pub open spec fn is_terrain(pixel: Rgba) -> bool {
    rgb_sum(pixel) != 0
}

/// Terrain that stops an actor: any pixel that is not pure white.
pub open spec fn is_solid(pixel: Rgba) -> bool {
    rgb_sum(pixel) != WHITE_SUM
}

impl Rgba {
    /// The four channels in the order in which a raster stores them.
    pub open spec fn channels(self) -> Seq<u8> {
        seq![self.r, self.g, self.b, self.a]
    }

    /// The colour with the given channels.
    pub fn new(r: u8, g: u8, b: u8, a: u8) -> (c: Rgba)
        ensures
            c == (Rgba { r, g, b, a }),
    {
        Rgba { r, g, b, a }
    }

    /// Black with no opacity: what a read outside a raster yields.
    pub fn transparent() -> (c: Rgba)
        ensures
            c == (Rgba { r: 0, g: 0, b: 0, a: 0 }),
    {
        Rgba { r: 0, g: 0, b: 0, a: 0 }
    }

    /// Opaque black.
    pub fn black() -> (c: Rgba)
        ensures
            c == (Rgba { r: 0, g: 0, b: 0, a: 255 }),
    {
        Rgba { r: 0, g: 0, b: 0, a: 255 }
    }

    /// Opaque white.
    pub fn white() -> (c: Rgba)
        ensures
            c == (Rgba { r: 255, g: 255, b: 255, a: 255 }),
    {
        Rgba { r: 255, g: 255, b: 255, a: 255 }
    }

    /// Opaque red.
    pub fn red() -> (c: Rgba)
        ensures
            c == (Rgba { r: 255, g: 0, b: 0, a: 255 }),
    {
        Rgba { r: 255, g: 0, b: 0, a: 255 }
    }

    /// The colour whose channels are the four bytes, in the order red, green,
    /// blue, alpha.
    pub fn from_bytes(bytes: [u8; 4]) -> (c: Rgba)
        ensures
            c == (Rgba { r: bytes[0], g: bytes[1], b: bytes[2], a: bytes[3] }),
    {
        Rgba { r: bytes[0], g: bytes[1], b: bytes[2], a: bytes[3] }
    }

    /// The four channels as bytes, in the order red, green, blue, alpha.
    pub fn to_bytes(&self) -> (bytes: [u8; 4])
        ensures
            bytes@ == self.channels(),
    {
        [self.r, self.g, self.b, self.a]
    }

    /// The sum of the three colour channels, at most 765.
    pub fn channel_sum(&self) -> (sum: u16)
        ensures
            sum == rgb_sum(*self),
    {
        self.r as u16 + self.g as u16 + self.b as u16
    }

    /// Whether erosion may still wear this pixel down.
    pub fn is_terrain(&self) -> (yes: bool)
        ensures
            yes == is_terrain(*self),
    {
        self.channel_sum() != 0
    }

    /// Whether this pixel stops an actor.
    pub fn is_solid(&self) -> (yes: bool)
        ensures
            yes == is_solid(*self),
    {
        self.channel_sum() != WHITE_SUM
    }
}

} // verus!
