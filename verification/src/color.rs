//! Three-channel colours and the palette the renderer draws with.

use vstd::prelude::*;

verus! {

/// One pixel's colour: red, green and blue channels.
#[derive(Clone, Copy, Debug, PartialEq, Eq, Structural)]
pub struct Color {
    pub r: u8,
    pub g: u8,
    pub b: u8,
}

/// Black: all channels off.
pub open spec fn black() -> Color {
    Color { r: 0, g: 0, b: 0 }
}

/// The colour of a dot that is switched on.
pub open spec fn ink_color() -> Color {
    black()
}

/// The colour of a dot that is switched off, and of a cleared surface.
pub open spec fn paper_color() -> Color {
    Color { r: 255, g: 255, b: 255 }
}

/// The colour of a dot that is switched on.
pub fn ink() -> (c: Color)
    ensures
        c == ink_color(),
{
    Color { r: 0, g: 0, b: 0 }
}

/// The colour of a dot that is switched off, and of a cleared surface.
pub fn paper() -> (c: Color)
    ensures
        c == paper_color(),
{
    Color { r: 255, g: 255, b: 255 }
}

} // verus!
