//! Packed 24-bit colours.

use vstd::prelude::*;

verus! {

/// The red, green and blue channels of a colour, eight bits each.
#[derive(Clone, Copy, Debug, PartialEq, Eq, Structural)]
pub struct Rgb {
    pub r: u8,
    pub g: u8,
    pub b: u8,
}

/// The channel of `rgb` that starts at bit `shift`.
pub open spec fn channel(rgb: u32, shift: u32) -> u8 {
    ((rgb >> shift) & 0xFF) as u8
}

/// The colour that the low 24 bits of `rgb` stand for.
pub open spec fn unpacked(rgb: u32) -> Rgb {
    Rgb { r: channel(rgb, 16), g: channel(rgb, 8), b: channel(rgb, 0) }
}

impl Rgb {
    /// Splits a packed `0xRRGGBB` value into its channels. Bits above the
    /// low 24 are ignored.
    pub fn from_rgb32(rgb: u32) -> (c: Rgb)
        ensures
            c == unpacked(rgb),
            (rgb & 0xFFFFFF) == (c.r as u32) * 65536 + (c.g as u32) * 256 + (c.b as u32),
    {
        let r: u8 = ((rgb >> 16) & 0xFF) as u8;
        let g: u8 = ((rgb >> 8) & 0xFF) as u8;
        let b: u8 = (rgb & 0xFF) as u8;
        assert((rgb & 0xFFFFFF) == (((rgb >> 16) & 0xFF) as u8 as u32) * 65536 + (((rgb >> 8)
            & 0xFF) as u8 as u32) * 256 + ((rgb & 0xFF) as u8 as u32)) by (bit_vector);
        assert((rgb >> 0) & 0xFF == rgb & 0xFF) by (bit_vector);
        Rgb { r, g, b }
    }

    /// Packs the channels back into `0xRRGGBB`.
    pub fn to_rgb32(self) -> (rgb: u32)
        ensures
            rgb == (self.r as u32) * 65536 + (self.g as u32) * 256 + (self.b as u32),
    {
        (self.r as u32) * 65536 + (self.g as u32) * 256 + (self.b as u32)
    }
}

} // verus!
