use vstd::prelude::*;

verus! {

/// A color, held as four 8-bit channels.
///
/// A channel value `v` stands for the intensity `v / 255`.
#[derive(Clone, Copy, Debug, PartialEq, Eq, Structural)]
pub struct Color {
    pub red: u8,
    pub green: u8,
    pub blue: u8,
    pub alpha: u8,
}

/// A style.
#[derive(Clone, Copy, Debug, PartialEq, Eq, Structural)]
pub struct Style {
    /// The color of the text.
    pub color: Color,
}

impl Color {
    /// Opaque red.
    pub fn red() -> (r: Color)
        ensures
            r == (Color { red: 255, green: 0, blue: 0, alpha: 255 }),
    {
        Color { red: 255, green: 0, blue: 0, alpha: 255 }
    }

    /// Opaque green.
    pub fn green() -> (r: Color)
        ensures
            r == (Color { red: 0, green: 255, blue: 0, alpha: 255 }),
    {
        Color { red: 0, green: 255, blue: 0, alpha: 255 }
    }

    /// Opaque blue.
    pub fn blue() -> (r: Color)
        ensures
            r == (Color { red: 0, green: 0, blue: 255, alpha: 255 }),
    {
        Color { red: 0, green: 0, blue: 255, alpha: 255 }
    }

    /// Opaque black.
    pub fn black() -> (r: Color)
        ensures
            r == (Color { red: 0, green: 0, blue: 0, alpha: 255 }),
    {
        Color { red: 0, green: 0, blue: 0, alpha: 255 }
    }

    /// Opaque white.
    pub fn white() -> (r: Color)
        ensures
            r == (Color { red: 255, green: 255, blue: 255, alpha: 255 }),
    {
        Color { red: 255, green: 255, blue: 255, alpha: 255 }
    }

    /// The opaque black that unstyled text carries.
    pub open spec fn black_spec() -> Color {
        Color { red: 0, green: 0, blue: 0, alpha: 255 }
    }

    /// The color packed as `0xAARRGGBB`.
    pub open spec fn unpacked(color: u32) -> Color {
        Color {
            alpha: (color / 0x1000000) as u8,
            red: ((color / 0x10000) % 0x100) as u8,
            green: ((color / 0x100) % 0x100) as u8,
            blue: (color % 0x100) as u8,
        }
    }

    /// Unpacks a color stored as `0xAARRGGBB`.
    pub fn from_packed_argb8(color: u32) -> (r: Color)
        ensures
            r == Color::unpacked(color),
    {
        let alpha = (color / 0x1000000) as u8;
        let red = ((color / 0x10000) % 0x100) as u8;
        let green = ((color / 0x100) % 0x100) as u8;
        let blue = (color % 0x100) as u8;
        Color::from_rgba8(red, green, blue, alpha)
    }

    /// An opaque color from its red, green and blue channels.
    pub fn from_rgb8(red: u8, green: u8, blue: u8) -> (r: Color)
        ensures
            r == (Color { red, green, blue, alpha: 255 }),
    {
        Color::from_rgba8(red, green, blue, 0xff)
    }

    /// A color from its four channels.
    pub fn from_rgba8(red: u8, green: u8, blue: u8, alpha: u8) -> (r: Color)
        ensures
            r == (Color { red, green, blue, alpha }),
    {
        Color { red, green, blue, alpha }
    }
}

impl Style {
    /// The style of text that was written without one.
    pub open spec fn plain() -> Style {
        Style { color: Color::black_spec() }
    }

    /// The style of text that was written without one: black.
    pub fn default_style() -> (r: Style)
        ensures
            r == Style::plain(),
    {
        Style { color: Color::black() }
    }
}

impl Default for Style {
    fn default() -> (r: Style)
        ensures
            r == Style::plain(),
    {
        Style::default_style()
    }
}

} // verus!
