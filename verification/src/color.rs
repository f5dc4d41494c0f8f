use vstd::prelude::*;

verus! {

/// An RGBA pixel color: four independent byte channels.
pub struct Color {
    r: u8,
    g: u8,
    b: u8,
    a: u8,
}

impl Color {
    /// The channel bytes in framebuffer order: red, green, blue, alpha.
    pub closed spec fn bytes(self) -> Seq<u8> {
        seq![self.r, self.g, self.b, self.a]
    }

    pub fn new(r: u8, g: u8, b: u8, a: u8) -> (c: Self)
        ensures
            c.bytes() == seq![r, g, b, a],
    {
        Color { r, g, b, a }
    }

    /// An opaque color: alpha defaults to 255.
    pub fn rgb(r: u8, g: u8, b: u8) -> (c: Self)
        ensures
            c.bytes() == seq![r, g, b, 255u8],
    {
        Color { r, g, b, a: 255 }
    }

    /// The packed 4-byte form written into the framebuffer for one pixel.
    pub fn to_u8_slice(&self) -> (out: [u8; 4])
        ensures
            out@ == self.bytes(),
    {
        [self.r, self.g, self.b, self.a]
    }
}

} // verus!
