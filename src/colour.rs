use vstd::prelude::*;

verus! {

/// The sixteen colours of the text-mode palette.
#[derive(Clone, Copy, Debug, PartialEq, Eq, Structural)]
pub enum Colour {
    Black,
    Blue,
    Green,
    Cyan,
    Red,
    Magenta,
    Brown,
    LightGray,
    DarkGray,
    LightBlue,
    LightGreen,
    LightCyan,
    LightRed,
    Pink,
    Yellow,
    White,
}

/// Palette index of a colour, 0 to 15.
pub open spec fn colour_index(c: Colour) -> u8 {
    match c {
        Colour::Black => 0,
        Colour::Blue => 1,
        Colour::Green => 2,
        Colour::Cyan => 3,
        Colour::Red => 4,
        Colour::Magenta => 5,
        Colour::Brown => 6,
        Colour::LightGray => 7,
        Colour::DarkGray => 8,
        Colour::LightBlue => 9,
        Colour::LightGreen => 10,
        Colour::LightCyan => 11,
        Colour::LightRed => 12,
        Colour::Pink => 13,
        Colour::Yellow => 14,
        Colour::White => 15,
    }
}

impl Colour {
    /// Palette index of this colour.
    pub fn index(self) -> (r: u8)
        ensures
            r == colour_index(self),
            r < 16,
    {
        match self {
            Colour::Black => 0,
            Colour::Blue => 1,
            Colour::Green => 2,
            Colour::Cyan => 3,
            Colour::Red => 4,
            Colour::Magenta => 5,
            Colour::Brown => 6,
            Colour::LightGray => 7,
            Colour::DarkGray => 8,
            Colour::LightBlue => 9,
            Colour::LightGreen => 10,
            Colour::LightCyan => 11,
            Colour::LightRed => 12,
            Colour::Pink => 13,
            Colour::Yellow => 14,
            Colour::White => 15,
        }
    }
}

/// An attribute byte: background index in the high nibble, foreground
/// index in the low nibble.
#[derive(Clone, Copy, Debug, PartialEq, Eq, Structural)]
pub struct ColourCode {
    pub code: u8,
}

/// The attribute byte for a foreground on a background.
pub open spec fn colour_code_of(foreground: Colour, background: Colour) -> ColourCode {
    ColourCode { code: (colour_index(background) * 16 + colour_index(foreground)) as u8 }
}

impl ColourCode {
    pub fn new(foreground: Colour, background: Colour) -> (r: ColourCode)
        ensures
            r == colour_code_of(foreground, background),
    {
        let fg = foreground.index();
        let bg = background.index();
        ColourCode { code: bg * 16 + fg }
    }

    /// Foreground palette index.
    pub fn foreground(self) -> (r: u8)
        ensures
            r == self.code % 16,
    {
        self.code % 16
    }

    /// Background palette index.
    pub fn background(self) -> (r: u8)
        ensures
            r == self.code / 16,
    {
        self.code / 16
    }
}

} // verus!
