use vstd::prelude::*;

verus! {

/// A drawing color: either a named one or a raw 32-bit value whose byte
/// order is part of the variant.
#[derive(Clone, Copy, Debug, PartialEq, Eq, Structural)]
pub enum Color {
    White,
    Black,
    Red,
    Green,
    Blue,
    Purple,
    /// Raw red-green-blue-alpha bytes, highest byte first.
    Rgb(u32),
    /// Raw blue-green-red-alpha bytes, highest byte first.
    Bgr(u32),
}

/// Swaps the red and blue channels of a four-byte color value, keeping the
/// green and alpha bytes where they are.
pub open spec fn swap_red_blue(value: u32) -> u32 {
    (((value >> 8) & 0xff) << 24) | (((value >> 16) & 0xff) << 16) | (((value >> 24) & 0xff) << 8)
        | (value & 0xff)
}

/// The red-green-blue-alpha encoding of a color.
pub open spec fn spec_as_rgb(c: Color) -> u32 {
    match c {
        Color::White => 0xffffff00,
        Color::Black => 0x00000000,
        Color::Red => 0xff000000,
        Color::Green => 0x00ff0000,
        Color::Blue => 0x0000ff00,
        Color::Purple => 0xaa00aa00,
        Color::Rgb(value) => value,
        Color::Bgr(value) => swap_red_blue(value),
    }
}

/// The blue-green-red-alpha encoding of a color.
pub open spec fn spec_as_bgr(c: Color) -> u32 {
    match c {
        Color::White => 0xffffff00,
        Color::Black => 0x00000000,
        Color::Red => 0x0000ff00,
        Color::Green => 0x00ff0000,
        Color::Blue => 0xff000000,
        Color::Purple => 0xaa00aa00,
        Color::Rgb(value) => swap_red_blue(value),
        Color::Bgr(value) => value,
    }
}

impl Color {
    /// Encodes the color as red-green-blue-alpha bytes, highest byte first.
    pub fn as_rgb(&self) -> (r: u32)
        ensures
            r == spec_as_rgb(*self),
    {
        match *self {
            Self::White => 0xffffff00,
            Self::Black => 0x00000000,
            Self::Red => 0xff000000,
            Self::Green => 0x00ff0000,
            Self::Blue => 0x0000ff00,
            Self::Purple => 0xaa00aa00,
            Self::Rgb(value) => value,
            Self::Bgr(value) => {
                let blue = (value >> 24) as u8;
                let green = (value >> 16) as u8;
                let red = (value >> 8) as u8;
                let alpha = value as u8;
                let swapped = (red as u32) << 24 | (green as u32) << 16 | (blue as u32) << 8 | (
                alpha as u32);
                proof {
                    assert((((value >> 8) as u8 as u32) << 24 | ((value >> 16) as u8 as u32) << 16
                        | ((value >> 24) as u8 as u32) << 8 | (value as u8 as u32))
                        == swap_red_blue(value)) by (bit_vector);
                }
                swapped
            },
        }
    }

    /// Encodes the color as blue-green-red-alpha bytes, highest byte first.
    pub fn as_bgr(&self) -> (r: u32)
        ensures
            r == spec_as_bgr(*self),
    {
        match *self {
            Self::White => 0xffffff00,
            Self::Black => 0x00000000,
            Self::Red => 0x0000ff00,
            Self::Green => 0x00ff0000,
            Self::Blue => 0xff000000,
            Self::Purple => 0xaa00aa00,
            Self::Rgb(value) => {
                let red = (value >> 24) as u8;
                let green = (value >> 16) as u8;
                let blue = (value >> 8) as u8;
                let alpha = value as u8;
                let swapped = (blue as u32) << 24 | (green as u32) << 16 | (red as u32) << 8 | (
                alpha as u32);
                proof {
                    assert((((value >> 8) as u8 as u32) << 24 | ((value >> 16) as u8 as u32) << 16
                        | ((value >> 24) as u8 as u32) << 8 | (value as u8 as u32))
                        == swap_red_blue(value)) by (bit_vector);
                }
                swapped
            },
            Self::Bgr(value) => value,
        }
    }
}

} // verus!
