//! Styled character cells.

use vstd::prelude::*;
use crate::text::{char_is_whitespace, is_whitespace};

verus! {

/// A terminal colour: the default, one of the sixteen ANSI colours, a palette index or true colour.
#[derive(Debug, Clone, Copy, PartialEq, Eq, Structural)]
pub enum Color {
    /// The terminal's default colour.
    Default,
    /// ANSI black.
    Black,
    /// ANSI red.
    Red,
    /// ANSI green.
    Green,
    /// ANSI yellow.
    Yellow,
    /// ANSI blue.
    Blue,
    /// ANSI magenta.
    Magenta,
    /// ANSI cyan.
    Cyan,
    /// ANSI white.
    White,
    /// Bright black.
    BrightBlack,
    /// Bright red.
    BrightRed,
    /// Bright green.
    BrightGreen,
    /// Bright yellow.
    BrightYellow,
    /// Bright blue.
    BrightBlue,
    /// Bright magenta.
    BrightMagenta,
    /// Bright cyan.
    BrightCyan,
    /// Bright white.
    BrightWhite,
    /// An index into the 256-colour palette.
    Indexed(u8),
    /// A 24-bit colour.
    Rgb {
        /// Red component.
        r: u8,
        /// Green component.
        g: u8,
        /// Blue component.
        b: u8,
    },
}

/// The eight independent rendition flags of a cell.
#[derive(Debug, Clone, Copy, PartialEq, Eq, Structural)]
pub struct CellAttributes {
    /// Bold text.
    pub bold: bool,
    /// Dimmed text.
    pub dim: bool,
    /// Italic text.
    pub italic: bool,
    /// Underlined text.
    pub underline: bool,
    /// Blinking text.
    pub blink: bool,
    /// Foreground and background swapped.
    pub reverse: bool,
    /// Hidden text.
    pub hidden: bool,
    /// Struck-through text.
    pub strikethrough: bool,
}

impl CellAttributes {
    /// The attributes with every flag off.
    pub open spec fn plain() -> CellAttributes {
        CellAttributes {
            bold: false,
            dim: false,
            italic: false,
            underline: false,
            blink: false,
            reverse: false,
            hidden: false,
            strikethrough: false,
        }
    }

    /// Whether every flag is off.
    pub fn is_default(&self) -> (b: bool)
        ensures
            b == (*self == CellAttributes::plain()),
    {
        !self.bold && !self.dim && !self.italic && !self.underline && !self.blink && !self.reverse
            && !self.hidden && !self.strikethrough
    }

    /// The same attributes with bold on.
    pub fn with_bold(self) -> (a: Self)
        ensures
            a == (CellAttributes { bold: true, ..self }),
    {
        let mut a = self;
        a.bold = true;
        a
    }

    /// The same attributes with reverse video on.
    pub fn with_reverse(self) -> (a: Self)
        ensures
            a == (CellAttributes { reverse: true, ..self }),
    {
        let mut a = self;
        a.reverse = true;
        a
    }

    /// The same attributes with underline on.
    pub fn with_underline(self) -> (a: Self)
        ensures
            a == (CellAttributes { underline: true, ..self }),
    {
        let mut a = self;
        a.underline = true;
        a
    }

    /// The same attributes with italic on.
    pub fn with_italic(self) -> (a: Self)
        ensures
            a == (CellAttributes { italic: true, ..self }),
    {
        let mut a = self;
        a.italic = true;
        a
    }
}

impl Default for CellAttributes {
    /// Every flag off.
    fn default() -> (a: Self)
        ensures
            a == CellAttributes::plain(),
    {
        CellAttributes {
            bold: false,
            dim: false,
            italic: false,
            underline: false,
            blink: false,
            reverse: false,
            hidden: false,
            strikethrough: false,
        }
    }
}

/// One character position of the screen.
#[derive(Debug, Clone, Copy, PartialEq, Eq, Structural)]
pub struct Cell {
    /// The character shown; a space where nothing was written.
    pub character: char,
    /// Foreground colour.
    pub fg: Color,
    /// Background colour.
    pub bg: Color,
    /// Rendition flags.
    pub attrs: CellAttributes,
}

impl Cell {
    /// A space with default colours and no attributes.
    pub open spec fn blank() -> Cell {
        Cell {
            character: ' ',
            fg: Color::Default,
            bg: Color::Default,
            attrs: CellAttributes::plain(),
        }
    }

    /// Whether the cell is a space without attributes.
    pub open spec fn is_empty_spec(&self) -> bool {
        self.character == ' ' && self.attrs == CellAttributes::plain()
    }

    /// A cell showing `character` with default styling.
    pub fn new(character: char) -> (c: Self)
        ensures
            c == (Cell { character, ..Cell::blank() }),
    {
        Cell { character, fg: Color::Default, bg: Color::Default, attrs: CellAttributes::default() }
    }

    /// A cell showing `character` in the foreground colour `fg`.
    pub fn with_fg(character: char, fg: Color) -> (c: Self)
        ensures
            c == (Cell { character, fg, ..Cell::blank() }),
    {
        Cell { character, fg, bg: Color::Default, attrs: CellAttributes::default() }
    }

    /// Whether the cell is a space without attributes.
    pub fn is_empty(&self) -> (b: bool)
        ensures
            b == self.is_empty_spec(),
    {
        self.character == ' ' && self.attrs.is_default()
    }

    /// Whether the cell's character is Unicode white space.
    pub fn is_whitespace(&self) -> (b: bool)
        ensures
            b == is_whitespace(self.character),
    {
        char_is_whitespace(self.character)
    }
}

impl Default for Cell {
    /// The blank cell.
    fn default() -> (c: Self)
        ensures
            c == Cell::blank(),
    {
        Cell {
            character: ' ',
            fg: Color::Default,
            bg: Color::Default,
            attrs: CellAttributes::default(),
        }
    }
}

} // verus!
