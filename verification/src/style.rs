//! Cells and the styling attributes they carry.

use vstd::prelude::*;

verus! {

/// A terminal color: the palette mirrors what ANSI terminals offer — a
/// "reset to default" marker, the sixteen named palette entries, a 256-color
/// index, or a 24-bit RGB triple.
#[derive(Clone, Copy, PartialEq, Eq, Structural, Debug)]
pub enum CellColor {
    Reset,
    Black,
    Red,
    Green,
    Yellow,
    Blue,
    Magenta,
    Cyan,
    Gray,
    DarkGray,
    LightRed,
    LightGreen,
    LightYellow,
    LightBlue,
    LightMagenta,
    LightCyan,
    White,
    Rgb(u8, u8, u8),
    Indexed(u8),
}

/// Style modifier bit: bold glyphs.
pub const MOD_BOLD: u16 = 0x0001;
/// Style modifier bit: dimmed glyphs.
pub const MOD_DIM: u16 = 0x0002;
/// Style modifier bit: italic glyphs.
pub const MOD_ITALIC: u16 = 0x0004;
/// Style modifier bit: underlined glyphs.
pub const MOD_UNDERLINED: u16 = 0x0008;

/// One cell of a frame buffer: a glyph plus its foreground color, background
/// color and style modifier bits.
#[derive(Clone, Copy, PartialEq, Eq, Structural, Debug)]
pub struct Cell {
    /// The character drawn in the cell.
    pub ch: char,
    /// Foreground color.
    pub fg: CellColor,
    /// Background color.
    pub bg: CellColor,
    /// Style modifier bits (`MOD_BOLD` and friends).
    pub modifiers: u16,
}

/// A style patch: colors to set and modifier bits to add; a `None` color
/// keeps the cell's own.
#[derive(Clone, Copy, PartialEq, Eq, Structural, Debug)]
pub struct Style {
    /// Foreground to set, if any.
    pub fg: Option<CellColor>,
    /// Background to set, if any.
    pub bg: Option<CellColor>,
    /// Modifier bits to add.
    pub add_modifiers: u16,
}

impl Style {
    /// The cell with this patch applied: colors overridden where set, the
    /// glyph kept, the modifier bits added.
    pub open spec fn apply_spec(self, c: Cell) -> Cell {
        Cell {
            ch: c.ch,
            fg: match self.fg {
                Some(f) => f,
                None => c.fg,
            },
            bg: match self.bg {
                Some(b) => b,
                None => c.bg,
            },
            modifiers: c.modifiers | self.add_modifiers,
        }
    }

    /// Applies the patch to a cell.
    pub fn apply(self, c: Cell) -> (r: Cell)
        ensures
            r == self.apply_spec(c),
    {
        Cell {
            ch: c.ch,
            fg: match self.fg {
                Some(f) => f,
                None => c.fg,
            },
            bg: match self.bg {
                Some(b) => b,
                None => c.bg,
            },
            modifiers: c.modifiers | self.add_modifiers,
        }
    }
}

impl Default for Style {
    /// The identity patch: nothing set, nothing added.
    fn default() -> (s: Style)
        ensures
            s == (Style { fg: None::<CellColor>, bg: None::<CellColor>, add_modifiers: 0u16 }),
    {
        Style { fg: None, bg: None, add_modifiers: 0 }
    }
}

impl Cell {
    /// The blank cell: a space with both colors reset and no modifiers.
    pub open spec fn empty_spec() -> Cell {
        Cell { ch: ' ', fg: CellColor::Reset, bg: CellColor::Reset, modifiers: 0 }
    }

    /// Returns the blank cell.
    pub fn empty() -> (c: Cell)
        ensures
            c == Cell::empty_spec(),
    {
        Cell { ch: ' ', fg: CellColor::Reset, bg: CellColor::Reset, modifiers: 0 }
    }
}

} // verus!
