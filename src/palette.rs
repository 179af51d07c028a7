use vstd::prelude::*;

verus! {

/// The named colours the renderer draws with; the frame driver maps each to
/// its pixel value.
#[derive(Clone, Copy, Debug, PartialEq, Eq, Structural)]
pub enum Tint {
    White,
    Yellow,
    OrangeRed,
    Green,
    DarkGray,
    Brown,
    DarkBlue,
    SkyBlue,
    Orange,
}

/// An RGBA texel or pixel value.
#[derive(Clone, Copy, Debug, PartialEq, Eq, Structural)]
pub struct Color {
    pub r: u8,
    pub g: u8,
    pub b: u8,
    pub a: u8,
}

/// The texel value that marks a transparent texel of a sprite.
pub open spec fn transparent() -> Color {
    Color { r: 152, g: 0, b: 136, a: 255 }
}

/// The transparency key of sprite textures.
pub fn transparent_color() -> (r: Color)
    ensures
        r == transparent(),
{
    Color { r: 152, g: 0, b: 136, a: 255 }
}

} // verus!
