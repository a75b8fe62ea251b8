//! Colours as the windows' interfaces want them.

use vstd::prelude::*;

verus! {

/// An opaque colour.
#[derive(Clone, Copy, Debug, PartialEq, Eq, Structural)]
pub struct Rgb {
    pub r: u8,
    pub g: u8,
    pub b: u8,
}

impl Rgb {
    /// The colour as `0x00BBGGRR`.
    pub open spec fn bgr(self) -> int {
        self.b * 65536 + self.g * 256 + self.r
    }

    pub fn rgb(r: u8, g: u8, b: u8) -> (c: Rgb)
        ensures
            c == (Rgb { r, g, b }),
    {
        Rgb { r, g, b }
    }

    /// The colour as `0x00BBGGRR`, which is how a device context takes it.
    pub fn to_bgr_u32(self) -> (v: u32)
        ensures
            v == self.bgr(),
    {
        self.b as u32 * 65536 + self.g as u32 * 256 + self.r as u32
    }
}

/// The bytes of a colour's number are its channels, red in the lowest.
pub proof fn red_is_the_lowest_byte(color: Rgb)
    ensures
        color.bgr() % 256 == color.r,
        color.bgr() / 256 % 256 == color.g,
        color.bgr() / 65536 == color.b,
{
}

} // verus!
