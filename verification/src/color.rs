//! The sixteen hardware colors and the packed attribute byte made from two of them.

use vstd::prelude::*;

verus! {

/// One of the sixteen colors of the VGA text-mode palette.
#[derive(Debug, Clone, Copy, PartialEq, Eq, Structural)]
pub enum Color {
    Black,
    Blue,
    Green,
    Cyan,
    Red,
    Magenta,
    Brown,
    LightGray,
    DarkGray,
    LightBlue,
    LightGreen,
    LightCyan,
    LightRed,
    Pink,
    Yellow,
    White,
}

impl Color {
    /// The number by which the hardware knows this color, from 0 to 15.
    pub open spec fn spec_code(self) -> u8 {
        match self {
            Color::Black => 0,
            Color::Blue => 1,
            Color::Green => 2,
            Color::Cyan => 3,
            Color::Red => 4,
            Color::Magenta => 5,
            Color::Brown => 6,
            Color::LightGray => 7,
            Color::DarkGray => 8,
            Color::LightBlue => 9,
            Color::LightGreen => 10,
            Color::LightCyan => 11,
            Color::LightRed => 12,
            Color::Pink => 13,
            Color::Yellow => 14,
            Color::White => 15,
        }
    }

    /// The number by which the hardware knows this color, from 0 to 15.
    #[verifier::when_used_as_spec(spec_code)]
    pub fn code(self) -> (c: u8)
        ensures
            c == self.spec_code(),
            c < 16,
    {
        match self {
            Color::Black => 0,
            Color::Blue => 1,
            Color::Green => 2,
            Color::Cyan => 3,
            Color::Red => 4,
            Color::Magenta => 5,
            Color::Brown => 6,
            Color::LightGray => 7,
            Color::DarkGray => 8,
            Color::LightBlue => 9,
            Color::LightGreen => 10,
            Color::LightCyan => 11,
            Color::LightRed => 12,
            Color::Pink => 13,
            Color::Yellow => 14,
            Color::White => 15,
        }
    }
}

/// The attribute byte of a cell as the hardware reads it: the foreground color
/// in the low four bits and the background color in the high four bits.
pub open spec fn packed(foreground: Color, background: Color) -> u8 {
    (background.code() << 4) | foreground.code()
}

/// Packing puts the background's number in the upper half of the byte and the
/// foreground's number in the lower half, so the byte is `16 * background +
/// foreground` and each color can be read back from it.
pub proof fn lemma_packed_halves(foreground: Color, background: Color)
    ensures
        packed(foreground, background) == 16 * background.code() + foreground.code(),
        packed(foreground, background) & 0x0f == foreground.code(),
        packed(foreground, background) >> 4 == background.code(),
{
    let f: u8 = foreground.code();
    let b: u8 = background.code();
    assert(f < 16 && b < 16);
    assert(((b << 4) | f) == 16 * b + f && ((b << 4) | f) & 0x0f == f && ((b << 4) | f) >> 4 == b)
        by (bit_vector)
        requires
            f < 16,
            b < 16,
    ;
}

/// Two pairs of colors pack into the same byte only if they are the same
/// pair: an attribute byte stands for exactly one foreground and one
/// background.
pub proof fn lemma_packed_one_to_one(
    foreground: Color,
    background: Color,
    other_foreground: Color,
    other_background: Color,
)
    requires
        packed(foreground, background) == packed(other_foreground, other_background),
    ensures
        foreground == other_foreground,
        background == other_background,
{
    lemma_packed_halves(foreground, background);
    lemma_packed_halves(other_foreground, other_background);
}

/// The style of a cell: a foreground and a background color packed into one byte.
#[derive(Debug, Clone, Copy, PartialEq, Eq, Structural)]
pub struct ColorCode(u8);

impl View for ColorCode {
    type V = u8;

    /// The attribute byte itself.
    closed spec fn view(&self) -> u8 {
        self.0
    }
}

impl ColorCode {
    /// Combines a foreground and a background color into one attribute byte.
    pub fn new(foreground: Color, background: Color) -> (code: ColorCode)
        ensures
            code@ == packed(foreground, background),
            code@ == 16 * background.code() + foreground.code(),
    {
        proof {
            lemma_packed_halves(foreground, background);
        }
        ColorCode((background.code() << 4) | foreground.code())
    }

    /// The attribute byte as it is stored in a cell.
    pub fn bits(&self) -> (b: u8)
        ensures
            b == self@,
    {
        self.0
    }
}

} // verus!
