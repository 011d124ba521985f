//! A colour value with three independent channels.
use vstd::prelude::*;

verus! {

/// Red, green and blue intensities of one LED.
#[derive(Copy, Clone, Debug, PartialEq, Eq, Structural)]
pub struct Pixel {
    pub r: u16,
    pub g: u16,
    pub b: u16,
}

impl Pixel {
    /// A black pixel.
    pub fn new() -> (p: Pixel)
        ensures
            p == (Pixel { r: 0, g: 0, b: 0 }),
    {
        Pixel { r: 0, g: 0, b: 0 }
    }

    /// The pixel with the given channel values.
    pub fn new_colored_pixel(r: u16, g: u16, b: u16) -> (p: Pixel)
        ensures
            p == (Pixel { r, g, b }),
    {
        Pixel { r, g, b }
    }
}

} // verus!
