//! Colors, and the palette that the game is drawn in.

use vstd::prelude::*;

verus! {

/// A color as four eight-bit channels.
#[derive(Copy, Clone, Debug, PartialEq, Eq, Structural)]
pub struct Color {
    pub r: u8,
    pub g: u8,
    pub b: u8,
    pub a: u8,
}

/// The opaque color with the given red, green and blue.
pub open spec fn spec_opaque(r: u8, g: u8, b: u8) -> Color {
    Color { r, g, b, a: 255 }
}

pub fn white() -> (color: Color)
    ensures
        color == spec_opaque(238, 238, 236),
{
    Color { r: 238, g: 238, b: 236, a: 255 }
}

pub fn gray() -> (color: Color)
    ensures
        color == spec_opaque(128, 128, 128),
{
    Color { r: 128, g: 128, b: 128, a: 255 }
}

pub fn red() -> (color: Color)
    ensures
        color == spec_opaque(164, 0, 0),
{
    Color { r: 164, g: 0, b: 0, a: 255 }
}

pub fn green() -> (color: Color)
    ensures
        color == spec_opaque(30, 100, 40),
{
    Color { r: 30, g: 100, b: 40, a: 255 }
}

pub fn blue() -> (color: Color)
    ensures
        color == spec_opaque(48, 60, 120),
{
    Color { r: 48, g: 60, b: 120, a: 255 }
}

pub fn cyan() -> (color: Color)
    ensures
        color == spec_opaque(40, 90, 130),
{
    Color { r: 40, g: 90, b: 130, a: 255 }
}

pub fn magenta() -> (color: Color)
    ensures
        color == spec_opaque(92, 53, 102),
{
    Color { r: 92, g: 53, b: 102, a: 255 }
}

pub fn yellow() -> (color: Color)
    ensures
        color == spec_opaque(120, 80, 50),
{
    Color { r: 120, g: 80, b: 50, a: 255 }
}

pub fn black() -> (color: Color)
    ensures
        color == spec_opaque(0, 0, 0),
{
    Color { r: 0, g: 0, b: 0, a: 255 }
}

pub fn dark_gray() -> (color: Color)
    ensures
        color == spec_opaque(72, 72, 72),
{
    Color { r: 72, g: 72, b: 72, a: 255 }
}

pub fn dark_red() -> (color: Color)
    ensures
        color == spec_opaque(239, 41, 41),
{
    Color { r: 239, g: 41, b: 41, a: 255 }
}

pub fn dark_green() -> (color: Color)
    ensures
        color == spec_opaque(40, 150, 50),
{
    Color { r: 40, g: 150, b: 50, a: 255 }
}

pub fn dark_blue() -> (color: Color)
    ensures
        color == spec_opaque(80, 100, 180),
{
    Color { r: 80, g: 100, b: 180, a: 255 }
}

pub fn dark_cyan() -> (color: Color)
    ensures
        color == spec_opaque(114, 159, 207),
{
    Color { r: 114, g: 159, b: 207, a: 255 }
}

pub fn dark_magenta() -> (color: Color)
    ensures
        color == spec_opaque(173, 127, 168),
{
    Color { r: 173, g: 127, b: 168, a: 255 }
}

pub fn dark_yellow() -> (color: Color)
    ensures
        color == spec_opaque(180, 170, 60),
{
    Color { r: 180, g: 170, b: 60, a: 255 }
}

} // verus!
