//! Colors that a terminal can show.
use vstd::prelude::*;

verus! {

/// A terminal color.
#[derive(PartialEq, Eq, Structural, PartialOrd, Ord, Hash, Clone, Copy, Debug)]
pub enum Color {
    /// The terminal's own color.
    Reset,
    /// Black.
    Black,
    /// Dark grey.
    DarkGrey,
    /// Light red.
    Red,
    /// Dark red.
    DarkRed,
    /// Light green.
    Green,
    /// Dark green.
    DarkGreen,
    /// Light yellow.
    Yellow,
    /// Dark yellow.
    DarkYellow,
    /// Light blue.
    Blue,
    /// Dark blue.
    DarkBlue,
    /// Light magenta.
    Magenta,
    /// Dark magenta.
    DarkMagenta,
    /// Light cyan.
    Cyan,
    /// Dark cyan.
    DarkCyan,
    /// White.
    White,
    /// Grey.
    Grey,
    /// A color given by its red, green and blue parts.
    Rgb {
        /// Red part.
        r: u8,
        /// Green part.
        g: u8,
        /// Blue part.
        b: u8,
    },
    /// A color given by its number in the terminal's table of 256.
    AnsiValue(u8),
}

} // verus!
