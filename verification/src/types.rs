//! The shared vocabulary: colours, cell attributes, cells and the commands
//! that the escape-sequence layer hands to the grid.
use vstd::prelude::*;

verus! {

/// A 24-bit colour.
#[derive(Debug, Clone, Copy, PartialEq, Eq, Structural)]
pub struct Rgb {
    pub r: u8,
    pub g: u8,
    pub b: u8,
}

impl Rgb {
    pub fn new(r: u8, g: u8, b: u8) -> (c: Rgb)
        ensures
            c == (Rgb { r, g, b }),
    {
        Rgb { r, g, b }
    }
}

/// A cell colour as the terminal program asked for it.
#[derive(Debug, Clone, Copy, PartialEq, Eq, Structural)]
pub enum Color {
    Default,
    Indexed(u8),
    Rgb(Rgb),
}

/// The rendition attributes of a cell.
#[derive(Debug, Clone, Copy, PartialEq, Eq, Structural)]
pub struct CellFlags {
    pub bold: bool,
    pub dim: bool,
    pub italic: bool,
    pub underline: bool,
    pub inverse: bool,
    pub hidden: bool,
    pub strikethrough: bool,
    /// The first half of a character two columns wide; the cell after it is
    /// its spacer.
    pub wide_char: bool,
}

impl CellFlags {
    pub open spec fn spec_empty() -> CellFlags {
        CellFlags {
            bold: false,
            dim: false,
            italic: false,
            underline: false,
            inverse: false,
            hidden: false,
            strikethrough: false,
            wide_char: false,
        }
    }

    pub fn empty() -> (f: CellFlags)
        ensures
            f == CellFlags::spec_empty(),
    {
        CellFlags {
            bold: false,
            dim: false,
            italic: false,
            underline: false,
            inverse: false,
            hidden: false,
            strikethrough: false,
            wide_char: false,
        }
    }

    pub open spec fn spec_is_empty(self) -> bool {
        self == CellFlags::spec_empty()
    }

    pub fn is_empty(&self) -> (b: bool)
        ensures
            b == self.spec_is_empty(),
    {
        !self.bold && !self.dim && !self.italic && !self.underline && !self.inverse && !self.hidden
            && !self.strikethrough && !self.wide_char
    }
}

/// One character position of the screen.
#[derive(Debug, Clone, Copy, PartialEq, Eq, Structural)]
pub struct Cell {
    pub character: char,
    pub fg: Color,
    pub bg: Color,
    pub flags: CellFlags,
}

impl Cell {
    /// A blank cell: a space in the default colours, no attributes.
    pub open spec fn spec_default() -> Cell {
        Cell { character: ' ', fg: Color::Default, bg: Color::Default, flags: CellFlags::spec_empty() }
    }
}

impl Default for Cell {
    fn default() -> (c: Cell)
        ensures
            c == Cell::spec_default(),
    {
        Cell { character: ' ', fg: Color::Default, bg: Color::Default, flags: CellFlags::empty() }
    }
}

/// What the escape-sequence layer asks the grid to do.
#[derive(Debug, Clone, Copy, PartialEq, Eq, Structural)]
pub enum TerminalCommand {
    Print(char),
    CursorUp(u16),
    CursorDown(u16),
    CursorForward(u16),
    CursorBack(u16),
    /// One-based row and column.
    CursorPosition { row: u16, col: u16 },
    SetForeground(Color),
    SetBackground(Color),
    SetBold,
    SetDim,
    SetItalic,
    SetUnderline,
    SetInverse,
    SetHidden,
    SetStrikethrough,
    ResetBold,
    ResetItalic,
    ResetUnderline,
    ResetInverse,
    ResetHidden,
    ResetStrikethrough,
    ResetAttributes,
    Newline,
    CarriageReturn,
    Backspace,
    Tab,
    Bell,
    ShowCursor,
    HideCursor,
    DeleteChars(u16),
    EraseInLine(u16),
    EraseInDisplay(u16),
}

} // verus!
