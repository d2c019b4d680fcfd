//! Packed RGBA colors and the fixed palette used by the editor.
use vstd::prelude::*;

verus! {

/// An RGBA color with one byte per channel.
#[derive(Clone, Copy, PartialEq, Eq, Structural, Debug)]
pub struct Rgba {
    pub r: u8,
    pub g: u8,
    pub b: u8,
    pub a: u8,
}

/// The color with the given channels.
pub open spec fn spec_rgba(r: u8, g: u8, b: u8, a: u8) -> Rgba {
    Rgba { r, g, b, a }
}

/// Builds a color from its four channels.
pub fn rgba(r: u8, g: u8, b: u8, a: u8) -> (c: Rgba)
    ensures
        c == spec_rgba(r, g, b, a),
{
    Rgba { r, g, b, a }
}

/// Decodes one 32-bit little-endian word into a color, the layout of the
/// texture pixel arrays.
pub fn rgba_from_le(word: u32) -> (c: Rgba)
    ensures
        c == spec_rgba_from_le(word),
{
    proof {
        assert((word & 0xff) < 256 && ((word >> 8) & 0xff) < 256 && ((word >> 16) & 0xff) < 256 && (
        (word >> 24) & 0xff) < 256) by (bit_vector);
    }
    Rgba {
        r: (word & 0xff) as u8,
        g: ((word >> 8) & 0xff) as u8,
        b: ((word >> 16) & 0xff) as u8,
        a: ((word >> 24) & 0xff) as u8,
    }
}

/// The color stored in one little-endian pixel word.
pub open spec fn spec_rgba_from_le(word: u32) -> Rgba {
    Rgba {
        r: (word & 0xff) as u8,
        g: ((word >> 8) & 0xff) as u8,
        b: ((word >> 16) & 0xff) as u8,
        a: ((word >> 24) & 0xff) as u8,
    }
}

/// The nine-entry palette a freshly traced sector's walls draw from,
/// indexed modulo nine; every other number maps to black.
pub open spec fn spec_palette(n: int) -> Rgba {
    if n == 0 {
        spec_rgba(227, 30, 35, 255)  // red
    } else if n == 1 {
        spec_rgba(154, 214, 28, 255)  // green
    } else if n == 2 {
        spec_rgba(34, 70, 153, 255)  // blue
    } else if n == 3 {
        spec_rgba(229, 159, 30, 255)  // yellow
    } else if n == 4 {
        spec_rgba(15, 194, 135, 255)  // cyan
    } else if n == 5 {
        spec_rgba(89, 31, 155, 255)  // purple
    } else if n == 6 {
        spec_rgba(73, 38, 17, 255)  // brown
    } else if n == 7 {
        spec_rgba(220, 18, 128, 255)  // pink
    } else if n == 8 {
        spec_rgba(229, 114, 30, 255)  // orange
    } else {
        spec_rgba(0, 0, 0, 255)  // black
    }
}

/// Picks a wall color from the fixed palette; any seed is reduced modulo
/// the palette size, so a caller may pass an arbitrary random number.
pub fn palette_color(seed: u32) -> (c: Rgba)
    ensures
        c == spec_palette(seed as int % 9),
{
    let n = seed % 9;
    if n == 0 {
        rgba(227, 30, 35, 255)
    } else if n == 1 {
        rgba(154, 214, 28, 255)
    } else if n == 2 {
        rgba(34, 70, 153, 255)
    } else if n == 3 {
        rgba(229, 159, 30, 255)
    } else if n == 4 {
        rgba(15, 194, 135, 255)
    } else if n == 5 {
        rgba(89, 31, 155, 255)
    } else if n == 6 {
        rgba(73, 38, 17, 255)
    } else if n == 7 {
        rgba(220, 18, 128, 255)
    } else {
        rgba(229, 114, 30, 255)
    }
}

/// White, the highlight color.
pub fn white() -> (c: Rgba)
    ensures
        c == spec_rgba(255, 255, 255, 255),
{
    rgba(255, 255, 255, 255)
}

/// Black, the grid-line and fallback color.
pub fn black() -> (c: Rgba)
    ensures
        c == spec_rgba(0, 0, 0, 255),
{
    rgba(0, 0, 0, 255)
}

/// Green, the color of the player marker and the default wall color.
pub fn green() -> (c: Rgba)
    ensures
        c == spec_rgba(154, 214, 28, 255),
{
    rgba(154, 214, 28, 255)
}

/// The mid grey used for inactive trace segments.
pub fn grey3() -> (c: Rgba)
    ensures
        c == spec_rgba(100, 100, 100, 255),
{
    rgba(100, 100, 100, 255)
}

/// The dark grey of the toolbar background.
pub fn grey4() -> (c: Rgba)
    ensures
        c == spec_rgba(70, 70, 70, 255),
{
    rgba(70, 70, 70, 255)
}

/// The translucent grey of the marquee rectangle.
pub fn marquee_grey() -> (c: Rgba)
    ensures
        c == spec_rgba(70, 70, 70, 129),
{
    rgba(70, 70, 70, 129)
}

} // verus!
