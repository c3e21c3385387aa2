//! The screen: a grid of cells with a cursor, the current rendition, and the
//! scrollback of lines that scrolled off the top.
use vstd::prelude::*;
use crate::types::{Cell, CellFlags, Color, TerminalCommand};
use crate::text::{char_width, unicode_char_width};

verus! {

/// At most this many lines are kept in the scrollback.
pub const MAX_SCROLLBACK: usize = 10_000;

/// The state of a grid, as values.
#[verifier::ext_equal]
pub struct GridModel {
    pub cells: Seq<Seq<Cell>>,
    pub cols: nat,
    pub rows: nat,
    pub cursor_row: nat,
    pub cursor_col: nat,
    pub fg: Color,
    pub bg: Color,
    pub flags: CellFlags,
    pub scrollback: Seq<Seq<Cell>>,
    pub scroll_offset: nat,
    pub cursor_visible: bool,
}

/// A row of `n` blank cells.
pub open spec fn default_row(n: nat) -> Seq<Cell> {
    Seq::new(n, |i: int| Cell::spec_default())
}

/// `cells` with the cell at `(r, c)` replaced.
pub open spec fn set_cell(cells: Seq<Seq<Cell>>, r: int, c: int, v: Cell) -> Seq<Seq<Cell>> {
    cells.update(r, cells[r].update(c, v))
}

/// `row` with the columns `from..to` replaced by `v`.
pub open spec fn fill(row: Seq<Cell>, from: int, to: int, v: Cell) -> Seq<Cell> {
    Seq::new(row.len(), |i: int| if from <= i < to { v } else { row[i] })
}

/// `row` after deleting `n` characters at `col`: the rest of the line moves
/// left and blanks come in at the end.
pub open spec fn delete_in_row(row: Seq<Cell>, col: int, n: int, cols: int, blank: Cell) -> Seq<Cell> {
    Seq::new(
        row.len(),
        |i: int|
            if i < col || i >= cols {
                row[i]
            } else if i + n < cols {
                row[i + n]
            } else {
                blank
            },
    )
}

/// The flags with `f` turned on or off.
pub open spec fn with_wide(f: CellFlags, on: bool) -> CellFlags {
    CellFlags { wide_char: on, ..f }
}

pub open spec fn min(a: nat, b: nat) -> nat {
    if a <= b { a } else { b }
}

impl GridModel {
    /// The shape the grid keeps: `rows` rows of `cols` cells, the cursor on a
    /// row (or at the origin of an empty grid) and at most one past the last
    /// column, the scroll offset within the scrollback, the scrollback within
    /// its limit.
    pub open spec fn wf(self) -> bool {
        &&& self.cells.len() == self.rows
        &&& forall|r: int| 0 <= r < self.rows ==> (#[trigger] self.cells[r]).len() == self.cols
        &&& (self.rows > 0 ==> self.cursor_row < self.rows)
        &&& (self.rows == 0 ==> self.cursor_row == 0)
        &&& self.cursor_col <= self.cols
        &&& self.cols <= u16::MAX
        &&& self.rows <= u16::MAX
        &&& self.scroll_offset <= self.scrollback.len()
        &&& self.scrollback.len() <= MAX_SCROLLBACK
    }

    /// The cell used for erasing: a space in the current background.
    pub open spec fn blank(self) -> Cell {
        Cell { character: ' ', fg: Color::Default, bg: self.bg, flags: CellFlags::spec_empty() }
    }

    /// The top row goes to the scrollback (the oldest line dropping out past
    /// the limit) and a blank row comes in at the bottom; a scrolled-back
    /// view keeps showing the same lines.
    pub open spec fn scroll_up(self) -> GridModel {
        let sb1 = self.scrollback.push(self.cells[0]);
        let trimmed = sb1.len() > MAX_SCROLLBACK;
        let sb2 = if trimmed { sb1.drop_first() } else { sb1 };
        let off1 = if trimmed { min(self.scroll_offset, sb2.len()) } else { self.scroll_offset };
        let off2 = if off1 > 0 { min(off1 + 1, sb2.len()) } else { off1 };
        GridModel {
            cells: self.cells.drop_first().push(default_row(self.cols)),
            scrollback: sb2,
            scroll_offset: off2,
            ..self
        }
    }

    /// Moves the cursor down a line, scrolling at the bottom.
    pub open spec fn newline(self) -> GridModel {
        if self.cursor_row + 1 >= self.rows {
            self.scroll_up()
        } else {
            GridModel { cursor_row: self.cursor_row + 1, ..self }
        }
    }

    /// Moves the cursor to the start of the next line, scrolling at the bottom.
    pub open spec fn wrap_cursor(self) -> GridModel {
        GridModel { cursor_col: 0, ..self }.newline()
    }

    /// Before `(row, col)` is written: a wide character there loses its
    /// spacer, and a wide character whose spacer is there is cleared.
    pub open spec fn cleanup_overwrite(self, row: int, col: int) -> GridModel {
        let c1 = if self.cells[row][col].flags.wide_char && col + 1 < self.cols {
            set_cell(self.cells, row, col + 1, Cell::spec_default())
        } else {
            self.cells
        };
        let c2 = if col > 0 && c1[row][col - 1].flags.wide_char {
            set_cell(c1, row, col - 1, Cell::spec_default())
        } else {
            c1
        };
        GridModel { cells: c2, ..self }
    }

    /// Before a character is written: wrap when the line is full, or, for a
    /// character two columns wide, when one column is left.
    pub open spec fn print_start(self, wide: bool) -> GridModel {
        let m1 = if wide && self.cursor_col + 1 >= self.cols { self.wrap_cursor() } else { self };
        if m1.cursor_col >= m1.cols { m1.wrap_cursor() } else { m1 }
    }

    /// Writes `c` at the cursor with the current rendition and advances; a
    /// wide character gets a blank spacer cell after it when there is room.
    pub open spec fn put_char(self, c: char, wide: bool) -> GridModel {
        let cell = Cell { character: c, fg: self.fg, bg: self.bg, flags: if wide { with_wide(self.flags, true) } else { self.flags } };
        let m4 = GridModel {
            cells: set_cell(self.cells, self.cursor_row as int, self.cursor_col as int, cell),
            cursor_col: self.cursor_col + 1,
            ..self
        };
        if wide && m4.cursor_col < m4.cols {
            GridModel {
                cells: set_cell(m4.cells, m4.cursor_row as int, m4.cursor_col as int, Cell::spec_default()),
                cursor_col: m4.cursor_col + 1,
                ..m4
            }
        } else {
            m4
        }
    }

    /// Writes `c` at the cursor with the current rendition and advances; a
    /// character two columns wide wraps when one column is left, and gets a
    /// blank spacer cell after it.
    pub open spec fn print(self, c: char) -> GridModel {
        let wide = unicode_char_width(c) == Some(2usize);
        let m2 = self.print_start(wide);
        m2.cleanup_overwrite(m2.cursor_row as int, m2.cursor_col as int).put_char(c, wide)
    }

    pub open spec fn delete_chars(self, n: nat) -> GridModel {
        let r = self.cursor_row as int;
        if self.rows == 0 { self } else { GridModel {
            cells: self.cells.update(r, delete_in_row(self.cells[r], self.cursor_col as int, n as int, self.cols as int, self.blank())),
            ..self
        } }
    }

    /// Erases part of the cursor's line: 0 from the cursor on, 1 up to and
    /// including the cursor, 2 all of it; other modes do nothing.
    pub open spec fn erase_in_line(self, mode: u16) -> GridModel {
        let r = self.cursor_row as int;
        let row = self.cells[r];
        if self.rows == 0 {
            self
        } else if mode == 0 {
            GridModel { cells: self.cells.update(r, fill(row, self.cursor_col as int, self.cols as int, self.blank())), ..self }
        } else if mode == 1 {
            GridModel { cells: self.cells.update(r, fill(row, 0, (self.cursor_col + 1) as int, self.blank())), ..self }
        } else if mode == 2 {
            GridModel { cells: self.cells.update(r, fill(row, 0, self.cols as int, self.blank())), ..self }
        } else {
            self
        }
    }

    /// Erases whole rows `from..to`.
    pub open spec fn erase_rows(self, from: int, to: int) -> GridModel {
        GridModel {
            cells: Seq::new(self.cells.len(), |r: int| if from <= r < to { fill(self.cells[r], 0, self.cols as int, self.blank()) } else { self.cells[r] }),
            ..self
        }
    }

    /// Erases part of the screen: 0 from the cursor on, 1 up to and including
    /// the cursor, 2 all of it; other modes do nothing.
    pub open spec fn erase_in_display(self, mode: u16) -> GridModel {
        if mode == 0 {
            self.erase_in_line(0).erase_rows((self.cursor_row + 1) as int, self.rows as int)
        } else if mode == 1 {
            self.erase_rows(0, self.cursor_row as int).erase_in_line(1)
        } else if mode == 2 {
            self.erase_rows(0, self.rows as int)
        } else {
            self
        }
    }

    /// What `apply` does to the grid.
    pub open spec fn apply(self, cmd: TerminalCommand) -> GridModel {
        match cmd {
            TerminalCommand::Print(c) => self.print(c),
            TerminalCommand::CursorUp(n) => GridModel {
                cursor_row: if self.cursor_row >= n { (self.cursor_row - n) as nat } else { 0 },
                ..self
            },
            TerminalCommand::CursorDown(n) => GridModel {
                cursor_row: min((self.cursor_row + n) as nat, (self.rows - 1) as nat),
                ..self
            },
            TerminalCommand::CursorForward(n) => GridModel {
                cursor_col: min((self.cursor_col + n) as nat, (self.cols - 1) as nat),
                ..self
            },
            TerminalCommand::CursorBack(n) => GridModel {
                cursor_col: if self.cursor_col >= n { (self.cursor_col - n) as nat } else { 0 },
                ..self
            },
            TerminalCommand::CursorPosition { row, col } => GridModel {
                cursor_row: min(if row >= 1 { (row - 1) as nat } else { 0 }, (self.rows - 1) as nat),
                cursor_col: min(if col >= 1 { (col - 1) as nat } else { 0 }, (self.cols - 1) as nat),
                ..self
            },
            TerminalCommand::SetForeground(c) => GridModel { fg: c, ..self },
            TerminalCommand::SetBackground(c) => GridModel { bg: c, ..self },
            TerminalCommand::SetBold => GridModel { flags: CellFlags { bold: true, ..self.flags }, ..self },
            TerminalCommand::SetDim => GridModel { flags: CellFlags { dim: true, ..self.flags }, ..self },
            TerminalCommand::SetItalic => GridModel { flags: CellFlags { italic: true, ..self.flags }, ..self },
            TerminalCommand::SetUnderline => GridModel { flags: CellFlags { underline: true, ..self.flags }, ..self },
            TerminalCommand::SetInverse => GridModel { flags: CellFlags { inverse: true, ..self.flags }, ..self },
            TerminalCommand::SetHidden => GridModel { flags: CellFlags { hidden: true, ..self.flags }, ..self },
            TerminalCommand::SetStrikethrough => GridModel { flags: CellFlags { strikethrough: true, ..self.flags }, ..self },
            TerminalCommand::ResetBold => GridModel { flags: CellFlags { bold: false, dim: false, ..self.flags }, ..self },
            TerminalCommand::ResetItalic => GridModel { flags: CellFlags { italic: false, ..self.flags }, ..self },
            TerminalCommand::ResetUnderline => GridModel { flags: CellFlags { underline: false, ..self.flags }, ..self },
            TerminalCommand::ResetInverse => GridModel { flags: CellFlags { inverse: false, ..self.flags }, ..self },
            TerminalCommand::ResetHidden => GridModel { flags: CellFlags { hidden: false, ..self.flags }, ..self },
            TerminalCommand::ResetStrikethrough => GridModel { flags: CellFlags { strikethrough: false, ..self.flags }, ..self },
            TerminalCommand::ResetAttributes => GridModel { fg: Color::Default, bg: Color::Default, flags: CellFlags::spec_empty(), ..self },
            TerminalCommand::Newline => self.newline(),
            TerminalCommand::CarriageReturn => GridModel { cursor_col: 0, ..self },
            TerminalCommand::Backspace => GridModel {
                cursor_col: if self.cursor_col >= 1 { (self.cursor_col - 1) as nat } else { 0 },
                ..self
            },
            TerminalCommand::Tab => {
                let next = ((self.cursor_col / 8) + 1) * 8;
                GridModel { cursor_col: if next >= self.cols { (self.cols - 1) as nat } else { next }, ..self }
            },
            TerminalCommand::Bell => self,
            TerminalCommand::ShowCursor => GridModel { cursor_visible: true, ..self },
            TerminalCommand::HideCursor => GridModel { cursor_visible: false, ..self },
            TerminalCommand::DeleteChars(n) => self.delete_chars(n as nat),
            TerminalCommand::EraseInLine(mode) => self.erase_in_line(mode),
            TerminalCommand::EraseInDisplay(mode) => self.erase_in_display(mode),
        }
    }

    /// Whether `apply` runs on this grid without indexing past it or
    /// underflowing a size: commands that move into or write the grid need
    /// a row and a column, and erasing up to the cursor needs the cursor on a
    /// column.
    pub open spec fn apply_defined(self, cmd: TerminalCommand) -> bool {
        let has_cells = self.rows > 0 && self.cols > 0;
        match cmd {
            TerminalCommand::Print(_) => has_cells,
            TerminalCommand::CursorDown(_) => self.rows > 0,
            TerminalCommand::CursorForward(_) => self.cols > 0,
            TerminalCommand::CursorPosition { .. } => has_cells,
            TerminalCommand::Newline => self.rows > 0,
            TerminalCommand::Tab => self.cols > 0,
            TerminalCommand::DeleteChars(_) => self.cursor_col < self.cols ==> self.rows > 0,
            TerminalCommand::EraseInLine(mode) => self.erase_in_line_defined(mode),
            TerminalCommand::EraseInDisplay(mode) => (mode == 0 ==> self.erase_in_line_defined(0))
                && (mode == 1 ==> self.erase_in_line_defined(1)),
            _ => true,
        }
    }

    pub open spec fn erase_in_line_defined(self, mode: u16) -> bool {
        if mode == 0 {
            self.cursor_col < self.cols ==> self.rows > 0
        } else if mode == 1 {
            self.rows > 0 && self.cursor_col < self.cols
        } else if mode == 2 {
            self.cols > 0 ==> self.rows > 0
        } else {
            true
        }
    }

    /// What the view shows: the screen, or, scrolled back by `k` lines, the
    /// last `k` scrollback lines followed by the top of the screen.
    pub open spec fn visible(self) -> Seq<Seq<Cell>> {
        if self.scroll_offset == 0 {
            self.cells
        } else {
            let sb_len = self.scrollback.len();
            let from_sb = self.scrollback.subrange(sb_len - self.scroll_offset, sb_len as int);
            let needed = self.rows - min(from_sb.len(), self.rows);
            (from_sb + self.cells.take(needed)).take(self.rows as int)
        }
    }

    /// What `resize` does: every row cut or padded to `cols`, rows cut or
    /// padded to `rows`, the cursor kept inside.
    pub open spec fn resize(self, cols: nat, rows: nat) -> GridModel {
        let widened = Seq::new(self.cells.len(), |r: int| resize_row(self.cells[r], cols));
        let cells = Seq::new(rows, |r: int| if r < widened.len() { widened[r] } else { default_row(cols) });
        GridModel {
            cells,
            cols,
            rows,
            cursor_row: min(self.cursor_row, (rows - 1) as nat),
            cursor_col: min(self.cursor_col, (cols - 1) as nat),
            ..self
        }
    }
}

/// The commands that only move the cursor.
pub open spec fn is_motion(cmd: TerminalCommand) -> bool {
    match cmd {
        TerminalCommand::CursorUp(_) | TerminalCommand::CursorDown(_) | TerminalCommand::CursorForward(_)
        | TerminalCommand::CursorBack(_) | TerminalCommand::CursorPosition { .. }
        | TerminalCommand::CarriageReturn | TerminalCommand::Backspace | TerminalCommand::Tab => true,
        _ => false,
    }
}

/// The commands that only change the current rendition.
pub open spec fn is_rendition(cmd: TerminalCommand) -> bool {
    match cmd {
        TerminalCommand::SetForeground(_) | TerminalCommand::SetBackground(_) | TerminalCommand::SetBold
        | TerminalCommand::SetDim | TerminalCommand::SetItalic | TerminalCommand::SetUnderline
        | TerminalCommand::SetInverse | TerminalCommand::SetHidden | TerminalCommand::SetStrikethrough
        | TerminalCommand::ResetBold | TerminalCommand::ResetItalic | TerminalCommand::ResetUnderline
        | TerminalCommand::ResetInverse | TerminalCommand::ResetHidden
        | TerminalCommand::ResetStrikethrough | TerminalCommand::ResetAttributes => true,
        _ => false,
    }
}

fn is_motion_exec(cmd: &TerminalCommand) -> (b: bool)
    ensures
        b == is_motion(*cmd),
{
    match cmd {
        TerminalCommand::CursorUp(_) | TerminalCommand::CursorDown(_) | TerminalCommand::CursorForward(_)
        | TerminalCommand::CursorBack(_) | TerminalCommand::CursorPosition { .. }
        | TerminalCommand::CarriageReturn | TerminalCommand::Backspace | TerminalCommand::Tab => true,
        _ => false,
    }
}

fn is_rendition_exec(cmd: &TerminalCommand) -> (b: bool)
    ensures
        b == is_rendition(*cmd),
{
    match cmd {
        TerminalCommand::SetForeground(_) | TerminalCommand::SetBackground(_) | TerminalCommand::SetBold
        | TerminalCommand::SetDim | TerminalCommand::SetItalic | TerminalCommand::SetUnderline
        | TerminalCommand::SetInverse | TerminalCommand::SetHidden | TerminalCommand::SetStrikethrough
        | TerminalCommand::ResetBold | TerminalCommand::ResetItalic | TerminalCommand::ResetUnderline
        | TerminalCommand::ResetInverse | TerminalCommand::ResetHidden
        | TerminalCommand::ResetStrikethrough | TerminalCommand::ResetAttributes => true,
        _ => false,
    }
}

/// `row` cut or padded with blank cells to `n` cells.
pub open spec fn resize_row(row: Seq<Cell>, n: nat) -> Seq<Cell> {
    Seq::new(n, |i: int| if i < row.len() { row[i] } else { Cell::spec_default() })
}

/// The rows of a `Vec<Vec<Cell>>` as values.
pub open spec fn rows_of(v: Seq<Vec<Cell>>) -> Seq<Seq<Cell>> {
    Seq::new(v.len(), |i: int| v[i]@)
}

pub struct Grid {
    cells: Vec<Vec<Cell>>,
    cols: usize,
    rows: usize,
    cursor_row: usize,
    cursor_col: usize,
    current_fg: Color,
    current_bg: Color,
    current_flags: CellFlags,
    scrollback: Vec<Vec<Cell>>,
    scroll_offset: usize,
    cursor_visible: bool,
}

impl View for Grid {
    type V = GridModel;

    closed spec fn view(&self) -> GridModel {
        GridModel {
            cells: rows_of(self.cells@),
            cols: self.cols as nat,
            rows: self.rows as nat,
            cursor_row: self.cursor_row as nat,
            cursor_col: self.cursor_col as nat,
            fg: self.current_fg,
            bg: self.current_bg,
            flags: self.current_flags,
            scrollback: rows_of(self.scrollback@),
            scroll_offset: self.scroll_offset as nat,
            cursor_visible: self.cursor_visible,
        }
    }
}

/// A row of `n` blank cells.
fn default_row_vec(n: usize) -> (v: Vec<Cell>)
    ensures
        v@ == default_row(n as nat),
{
    let mut v: Vec<Cell> = Vec::new();
    let mut i: usize = 0;
    while i < n
        invariant
            i <= n,
            v@ == default_row(i as nat),
        decreases n - i,
    {
        v.push(Cell::default());
        assert(v@ =~= default_row((i + 1) as nat));
        i = i + 1;
    }
    v
}

pub proof fn lemma_rows_of_update(v: Seq<Vec<Cell>>, r: int, x: Vec<Cell>)
    requires
        0 <= r < v.len(),
    ensures
        rows_of(v.update(r, x)) == rows_of(v).update(r, x@),
{
    assert(rows_of(v.update(r, x)) =~= rows_of(v).update(r, x@));
}

pub proof fn lemma_rows_of_push(v: Seq<Vec<Cell>>, x: Vec<Cell>)
    ensures
        rows_of(v.push(x)) == rows_of(v).push(x@),
{
    assert(rows_of(v.push(x)) =~= rows_of(v).push(x@));
}

pub proof fn lemma_rows_of_remove_first(v: Seq<Vec<Cell>>)
    requires
        v.len() > 0,
    ensures
        rows_of(v.remove(0)) == rows_of(v).drop_first(),
{
    assert(rows_of(v.remove(0)) =~= rows_of(v).drop_first());
}

/// A copy of the cells `row[from..to]`.
fn copy_cells(row: &Vec<Cell>, from: usize, to: usize) -> (out: Vec<Cell>)
    requires
        from <= to <= row.len(),
    ensures
        out@ == row@.subrange(from as int, to as int),
{
    let mut out: Vec<Cell> = Vec::new();
    let mut i = from;
    while i < to
        invariant
            from <= i <= to <= row.len(),
            out@ == row@.subrange(from as int, i as int),
        decreases to - i,
    {
        out.push(row[i]);
        assert(out@ =~= row@.subrange(from as int, (i + 1) as int));
        i = i + 1;
    }
    out
}

/// `row` cut or padded with blank cells to `n` cells.
fn resize_row_vec(row: &mut Vec<Cell>, n: usize)
    ensures
        final(row)@ == resize_row(old(row)@, n as nat),
{
    if row.len() > n {
        row.truncate(n);
    } else {
        while row.len() < n
            invariant
                old(row)@.len() <= row.len() <= n,
                row@ == resize_row(old(row)@, row.len() as nat),
            decreases n - row.len(),
        {
            let ghost before = row@;
            row.push(Cell::default());
            assert(row@ =~= resize_row(old(row)@, row.len() as nat));
        }
    }
    assert(row@ =~= resize_row(old(row)@, n as nat));
}


/// Deleting `n` characters at the cursor removes exactly `n` cells of its
/// row: left of the cursor nothing moves, from the cursor on each cell is
/// the one that stood `n` columns further right, and the columns left over
/// at the end become blanks in the current background. No other row
/// changes, and the cursor stays.
pub proof fn lemma_delete_chars_removes_n(g: GridModel, n: u16)
    requires
        g.wf(),
        g.rows > 0,
    ensures
        ({
            let h = g.apply(TerminalCommand::DeleteChars(n));
            let r = g.cursor_row as int;
            let c = g.cursor_col as int;
            &&& h.wf()
            &&& h.cursor_row == g.cursor_row && h.cursor_col == g.cursor_col
            &&& forall|q: int| 0 <= q < g.rows && q != r ==> #[trigger] h.cells[q] == g.cells[q]
            &&& forall|i: int| 0 <= i < c && i < g.cols ==> #[trigger] h.cells[r][i] == g.cells[r][i]
            &&& forall|i: int| c <= i && i + n < g.cols ==> #[trigger] h.cells[r][i] == g.cells[r][i + n]
            &&& forall|i: int|
                c <= i < g.cols && i + n >= g.cols ==> #[trigger] h.cells[r][i] == (Cell {
                    character: ' ',
                    fg: Color::Default,
                    bg: g.bg,
                    flags: CellFlags { bold: false, dim: false, italic: false, underline: false,
                        inverse: false, hidden: false, strikethrough: false, wide_char: false },
                })
        }),
{
    let h = g.apply(TerminalCommand::DeleteChars(n));
    assert forall|q: int| 0 <= q < h.rows implies (#[trigger] h.cells[q]).len() == h.cols by {
        if q != g.cursor_row {
            assert(h.cells[q] == g.cells[q]);
        }
    }
}

/// Resizing a grid to the size it has changes nothing (unless the cursor
/// waits past the last column, where resizing pulls it back onto it).
pub proof fn lemma_resize_same_size(g: GridModel)
    requires
        g.wf(),
        g.cols >= 1,
        g.rows >= 1,
        g.cursor_col < g.cols,
    ensures
        g.resize(g.cols, g.rows) == g,
{
    let r = g.resize(g.cols, g.rows);
    assert forall|i: int| 0 <= i < g.rows implies #[trigger] resize_row(g.cells[i], g.cols) == g.cells[i] by {
        assert(resize_row(g.cells[i], g.cols) =~= g.cells[i]);
    }
    assert(r.cells =~= g.cells);
    assert(r == g);
}

impl GridModel {
    /// The view scrolled back by `lines`, no further than the scrollback.
    pub open spec fn scroll_view_up(self, lines: nat) -> GridModel {
        GridModel { scroll_offset: min(self.scroll_offset + lines, self.scrollback.len()), ..self }
    }

    /// The view scrolled forward by `lines`, no further than the screen.
    pub open spec fn scroll_view_down(self, lines: nat) -> GridModel {
        GridModel {
            scroll_offset: if self.scroll_offset >= lines {
                (self.scroll_offset - lines) as nat
            } else {
                0
            },
            ..self
        }
    }
}

/// Scrolling the view back and then forward by the same number of lines
/// returns to where it was, while the scrollback holds that many lines.
pub proof fn lemma_scroll_back_and_forth(g: GridModel, lines: nat)
    requires
        g.scroll_offset + lines <= g.scrollback.len(),
    ensures
        g.scroll_view_up(lines).scroll_view_down(lines) == g,
{
}

impl Grid {
    pub fn new(cols: u16, rows: u16) -> (g: Grid)
        ensures
            g@.wf(),
            g@.cells == Seq::new(rows as nat, |r: int| default_row(cols as nat)),
            g@.cols == cols,
            g@.rows == rows,
            g@.cursor_row == 0,
            g@.cursor_col == 0,
            g@.fg == Color::Default,
            g@.bg == Color::Default,
            g@.flags == CellFlags::spec_empty(),
            g@.scrollback == Seq::<Seq<Cell>>::empty(),
            g@.scroll_offset == 0,
            g@.cursor_visible,
    {
        let cols = cols as usize;
        let rows = rows as usize;
        let mut cells: Vec<Vec<Cell>> = Vec::new();
        let mut r: usize = 0;
        while r < rows
            invariant
                r <= rows,
                cells@.len() == r,
                rows_of(cells@) == Seq::new(r as nat, |i: int| default_row(cols as nat)),
            decreases rows - r,
        {
            let row = default_row_vec(cols);
            let ghost before = cells@;
            cells.push(row);
            assert forall|i: int| 0 <= i < r implies cells@[i]@ == default_row(cols as nat) by {
                assert(cells@[i] == before[i]);
                assert(rows_of(before)[i] == before[i]@);
            }
            assert(rows_of(cells@) =~= Seq::new((r + 1) as nat, |i: int| default_row(cols as nat)));
            r = r + 1;
        }
        let g = Grid {
            cells,
            cols,
            rows,
            cursor_row: 0,
            cursor_col: 0,
            current_fg: Color::Default,
            current_bg: Color::Default,
            current_flags: CellFlags::empty(),
            scrollback: Vec::new(),
            scroll_offset: 0,
            cursor_visible: true,
        };
        assert(g@.scrollback =~= Seq::<Seq<Cell>>::empty());
        assert forall|i: int| 0 <= i < g@.rows implies (#[trigger] g@.cells[i]).len() == g@.cols by {}
        g
    }

    /// The screen rows.
    pub fn cells(&self) -> (c: &[Vec<Cell>])
        ensures
            rows_of(c@) == self@.cells,
    {
        self.cells.as_slice()
    }

    pub fn cursor_pos(&self) -> (p: (u16, u16))
        requires
            self@.wf(),
        ensures
            p.0 == self@.cursor_row,
            p.1 == self@.cursor_col,
    {
        (self.cursor_row as u16, self.cursor_col as u16)
    }

    pub fn cursor_visible(&self) -> (b: bool)
        ensures
            b == self@.cursor_visible,
    {
        self.cursor_visible
    }

    pub fn scroll_offset(&self) -> (n: usize)
        ensures
            n == self@.scroll_offset,
    {
        self.scroll_offset
    }

    pub fn scrollback_len(&self) -> (n: usize)
        ensures
            n == self@.scrollback.len(),
    {
        self.scrollback.len()
    }

    pub fn scrollback(&self) -> (s: &[Vec<Cell>])
        ensures
            rows_of(s@) == self@.scrollback,
    {
        self.scrollback.as_slice()
    }

    /// Scrolls the view back by `lines`, no further than the scrollback.
    pub fn scroll_up_view(&mut self, lines: usize)
        requires
            old(self)@.wf(),
            old(self)@.scroll_offset + lines <= usize::MAX,
        ensures
            final(self)@ == old(self)@.scroll_view_up(lines as nat),
    {
        let target = self.scroll_offset + lines;
        self.scroll_offset = if target < self.scrollback.len() { target } else { self.scrollback.len() };
    }

    /// Scrolls the view forward by `lines`, no further than the screen.
    pub fn scroll_down_view(&mut self, lines: usize)
        ensures
            final(self)@ == old(self)@.scroll_view_down(lines as nat),
    {
        self.scroll_offset = self.scroll_offset.saturating_sub(lines);
    }

    /// Writes `v` at `(r, c)`.
    fn set_cell_at(&mut self, r: usize, c: usize, v: Cell)
        requires
            old(self)@.wf(),
            r < old(self)@.rows,
            c < old(self)@.cols,
        ensures
            final(self)@ == (GridModel { cells: set_cell(old(self)@.cells, r as int, c as int, v), ..old(self)@ }),
            final(self)@.wf(),
    {
        let ghost before = self.cells@;
        assert(self.cells@[r as int]@ == self@.cells[r as int]);
        let row: &mut Vec<Cell> = &mut self.cells[r];
        row.set(c, v);
        proof {
            lemma_rows_of_update(before, r as int, self.cells@[r as int]);
            assert(self.cells@ == before.update(r as int, self.cells@[r as int]));
        }
        assert(self@.cells =~= set_cell(old(self)@.cells, r as int, c as int, v));
    }

    /// Writes `v` over columns `from..to` of row `r`.
    fn fill_row(&mut self, r: usize, from: usize, to: usize, v: Cell)
        requires
            old(self)@.wf(),
            r < old(self)@.rows,
            from <= to <= old(self)@.cols,
        ensures
            final(self)@ == (GridModel {
                cells: old(self)@.cells.update(r as int, fill(old(self)@.cells[r as int], from as int, to as int, v)),
                ..old(self)@
            }),
            final(self)@.wf(),
    {
        let ghost orig = self@;
        let mut c = from;
        assert(fill(orig.cells[r as int], from as int, from as int, v) =~= orig.cells[r as int]);
        assert(orig.cells.update(r as int, fill(orig.cells[r as int], from as int, from as int, v)) =~= orig.cells);
        while c < to
            invariant
                from <= c <= to <= orig.cols,
                r < orig.rows,
                orig.wf(),
                self@ == (GridModel { cells: orig.cells.update(r as int, fill(orig.cells[r as int], from as int, c as int, v)), ..orig }),
                self@.wf(),
            decreases to - c,
        {
            self.set_cell_at(r, c, v);
            assert(fill(orig.cells[r as int], from as int, c as int, v).update(c as int, v) =~= fill(
                orig.cells[r as int],
                from as int,
                (c + 1) as int,
                v,
            ));
            assert(self@.cells =~= orig.cells.update(r as int, fill(orig.cells[r as int], from as int, (c + 1) as int, v)));
            c = c + 1;
        }
    }

    fn scroll_up(&mut self)
        requires
            old(self)@.wf(),
            old(self)@.rows > 0,
        ensures
            final(self)@ == old(self)@.scroll_up(),
            final(self)@.wf(),
    {
        let ghost m = self@;
        proof { lemma_rows_of_remove_first(self.cells@); }
        let row = self.cells.remove(0);
        assert(row@ == m.cells[0]);
        proof { lemma_rows_of_push(self.scrollback@, row); }
        self.scrollback.push(row);
        if self.scrollback.len() > MAX_SCROLLBACK {
            proof { lemma_rows_of_remove_first(self.scrollback@); }
            self.scrollback.remove(0);
            self.scroll_offset = if self.scroll_offset < self.scrollback.len() {
                self.scroll_offset
            } else {
                self.scrollback.len()
            };
        }
        let blank_row = default_row_vec(self.cols);
        proof { lemma_rows_of_push(self.cells@, blank_row); }
        self.cells.push(blank_row);
        if self.scroll_offset > 0 {
            self.scroll_offset += 1;
            self.scroll_offset = if self.scroll_offset < self.scrollback.len() {
                self.scroll_offset
            } else {
                self.scrollback.len()
            };
        }
        assert(self@.cells =~= m.scroll_up().cells);
        assert(self@.scrollback =~= m.scroll_up().scrollback);
        assert forall|r: int| 0 <= r < self@.rows implies (#[trigger] self@.cells[r]).len() == self@.cols by {
            if r < self@.rows - 1 {
                assert(self@.cells[r] == m.cells[r + 1]);
            }
        }
    }

    fn newline(&mut self)
        requires
            old(self)@.wf(),
            old(self)@.rows > 0,
        ensures
            final(self)@ == old(self)@.newline(),
            final(self)@.wf(),
    {
        if self.cursor_row + 1 >= self.rows {
            self.scroll_up();
        } else {
            self.cursor_row += 1;
        }
    }

    fn wrap_cursor(&mut self)
        requires
            old(self)@.wf(),
            old(self)@.rows > 0,
        ensures
            final(self)@ == old(self)@.wrap_cursor(),
            final(self)@.wf(),
    {
        self.cursor_col = 0;
        self.newline();
    }

    fn cleanup_overwrite(&mut self, row: usize, col: usize)
        requires
            old(self)@.wf(),
            row < old(self)@.rows,
            col < old(self)@.cols,
        ensures
            final(self)@ == old(self)@.cleanup_overwrite(row as int, col as int),
            final(self)@.wf(),
    {
        let cell = self.cells[row][col];
        assert(cell == self@.cells[row as int][col as int]);
        if cell.flags.wide_char && col + 1 < self.cols {
            self.set_cell_at(row, col + 1, Cell::default());
        }
        if col > 0 {
            let prev = self.cells[row][col - 1];
            assert(prev == self@.cells[row as int][col - 1]);
            if prev.flags.wide_char {
                self.set_cell_at(row, col - 1, Cell::default());
            }
        }
    }

    fn print_start(&mut self, wide: bool)
        requires
            old(self)@.wf(),
            old(self)@.rows > 0,
            old(self)@.cols > 0,
        ensures
            final(self)@ == old(self)@.print_start(wide),
            final(self)@.wf(),
            final(self)@.cursor_col < final(self)@.cols,
    {
        if wide {
            if self.cursor_col + 1 >= self.cols {
                self.wrap_cursor();
            }
        }
        if self.cursor_col >= self.cols {
            self.wrap_cursor();
        }
    }

    fn put_char(&mut self, c: char, wide: bool)
        requires
            old(self)@.wf(),
            old(self)@.rows > 0,
            old(self)@.cursor_col < old(self)@.cols,
        ensures
            final(self)@ == old(self)@.put_char(c, wide),
            final(self)@.wf(),
    {
        let flags = if wide {
            CellFlags { wide_char: true, ..self.current_flags }
        } else {
            self.current_flags
        };
        let cell = Cell { character: c, fg: self.current_fg, bg: self.current_bg, flags };
        self.set_cell_at(self.cursor_row, self.cursor_col, cell);
        self.cursor_col += 1;
        if wide {
            if self.cursor_col < self.cols {
                self.set_cell_at(self.cursor_row, self.cursor_col, Cell::default());
                self.cursor_col += 1;
            }
        }
    }

    fn print(&mut self, c: char)
        requires
            old(self)@.wf(),
            old(self)@.rows > 0,
            old(self)@.cols > 0,
        ensures
            final(self)@ == old(self)@.print(c),
            final(self)@.wf(),
    {
        let width = char_width(c);
        let wide = match width {
            Some(w) => w == 2,
            None => false,
        };
        assert(wide == (unicode_char_width(c) == Some(2usize)));
        self.print_start(wide);
        self.cleanup_overwrite(self.cursor_row, self.cursor_col);
        self.put_char(c, wide);
    }

    fn blank_cell(&self) -> (c: Cell)
        ensures
            c == self@.blank(),
    {
        Cell { character: ' ', fg: Color::Default, bg: self.current_bg, flags: CellFlags::empty() }
    }

    fn delete_chars(&mut self, n: u16)
        requires
            old(self)@.wf(),
            old(self)@.cursor_col < old(self)@.cols ==> old(self)@.rows > 0,
        ensures
            final(self)@ == old(self)@.delete_chars(n as nat),
            final(self)@.wf(),
    {
        let ghost orig = self@;
        let n = n as usize;
        let row = self.cursor_row;
        let col = self.cursor_col;
        let blank = self.blank_cell();
        if self.rows == 0 {
            return;
        }
        let ghost r = row as int;
        let mut i = col;
        let ghost start = Seq::new(orig.cols, |j: int|
            if j < col || j >= i {
                orig.cells[r][j]
            } else if j + n < orig.cols {
                orig.cells[r][j + n]
            } else {
                blank
            });
        assert(start =~= orig.cells[r]);
        assert(orig.cells.update(r, start) =~= orig.cells);
        while i < self.cols
            invariant
                orig.wf(),
                orig.rows > 0,
                row == orig.cursor_row,
                r == row,
                col == orig.cursor_col,
                blank == orig.blank(),
                n <= u16::MAX,
                col <= i <= orig.cols,
                self@ == (GridModel {
                    cells: orig.cells.update(r, Seq::new(orig.cols, |j: int|
                        if j < col || j >= i {
                            orig.cells[r][j]
                        } else if j + n < orig.cols {
                            orig.cells[r][j + n]
                        } else {
                            blank
                        })),
                    ..orig
                }),
                self@.wf(),
            decreases orig.cols - i,
        {
            let v = if i + n < self.cols {
                let x = self.cells[row][i + n];
                assert(x == self@.cells[r][i + n]);
                x
            } else {
                blank
            };
            self.set_cell_at(row, i, v);
            proof {
                let next = Seq::new(orig.cols, |j: int|
                    if j < col || j >= i + 1 {
                        orig.cells[r][j]
                    } else if j + n < orig.cols {
                        orig.cells[r][j + n]
                    } else {
                        blank
                    });
                assert(self@.cells[r] =~= next);
                assert(self@.cells =~= orig.cells.update(r, next));
            }
            i = i + 1;
        }
        proof {
            let fin = Seq::new(orig.cols, |j: int|
                if j < col || j >= i {
                    orig.cells[r][j]
                } else if j + n < orig.cols {
                    orig.cells[r][j + n]
                } else {
                    blank
                });
            assert(fin =~= delete_in_row(orig.cells[r], col as int, n as int, orig.cols as int, orig.blank()));
        }
    }

    fn erase_in_line(&mut self, mode: u16)
        requires
            old(self)@.wf(),
            old(self)@.erase_in_line_defined(mode),
        ensures
            final(self)@ == old(self)@.erase_in_line(mode),
            final(self)@.wf(),
    {
        if self.rows == 0 {
            return;
        }
        let row = self.cursor_row;
        let blank = self.blank_cell();
        if mode == 0 {
            self.fill_row(row, self.cursor_col, self.cols, blank);
        } else if mode == 1 {
            self.fill_row(row, 0, self.cursor_col + 1, blank);
        } else if mode == 2 {
            self.fill_row(row, 0, self.cols, blank);
        }
    }

    /// Blanks whole rows `from..to`.
    fn erase_rows(&mut self, from: usize, to: usize)
        requires
            old(self)@.wf(),
            from <= to <= old(self)@.rows,
        ensures
            final(self)@ == old(self)@.erase_rows(from as int, to as int),
            final(self)@.wf(),
    {
        let ghost orig = self@;
        let blank = self.blank_cell();
        let mut r = from;
        assert(orig.erase_rows(from as int, from as int).cells =~= orig.cells);
        while r < to
            invariant
                orig.wf(),
                from <= r <= to <= orig.rows,
                blank == orig.blank(),
                self@ == orig.erase_rows(from as int, r as int),
                self@.wf(),
            decreases to - r,
        {
            self.fill_row(r, 0, self.cols, blank);
            assert(self@.cells =~= orig.erase_rows(from as int, (r + 1) as int).cells);
            r = r + 1;
        }
    }

    fn erase_in_display(&mut self, mode: u16)
        requires
            old(self)@.wf(),
            mode == 0 ==> old(self)@.erase_in_line_defined(0),
            mode == 1 ==> old(self)@.erase_in_line_defined(1),
        ensures
            final(self)@ == old(self)@.erase_in_display(mode),
            final(self)@.wf(),
    {
        if mode == 0 {
            self.erase_in_line(0);
            if self.rows > 0 {
                self.erase_rows(self.cursor_row + 1, self.rows);
            } else {
                assert(self@.erase_rows((self@.cursor_row + 1) as int, self@.rows as int).cells =~= self@.cells);
            }
        } else if mode == 1 {
            self.erase_rows(0, self.cursor_row);
            self.erase_in_line(1);
        } else if mode == 2 {
            self.erase_rows(0, self.rows);
        }
    }

    /// The cursor-moving commands.
    fn apply_motion(&mut self, cmd: &TerminalCommand)
        requires
            old(self)@.wf(),
            old(self)@.apply_defined(*cmd),
            is_motion(*cmd),
        ensures
            final(self)@ == old(self)@.apply(*cmd),
            final(self)@.wf(),
    {
        match cmd {
            TerminalCommand::CursorUp(n) => {
                self.cursor_row = self.cursor_row.saturating_sub(*n as usize);
            },
            TerminalCommand::CursorDown(n) => {
                let target = self.cursor_row + *n as usize;
                let last = self.rows - 1;
                self.cursor_row = if target < last { target } else { last };
            },
            TerminalCommand::CursorForward(n) => {
                let target = self.cursor_col + *n as usize;
                let last = self.cols - 1;
                self.cursor_col = if target < last { target } else { last };
            },
            TerminalCommand::CursorBack(n) => {
                self.cursor_col = self.cursor_col.saturating_sub(*n as usize);
            },
            TerminalCommand::CursorPosition { row, col } => {
                let r = (*row as usize).saturating_sub(1);
                let c = (*col as usize).saturating_sub(1);
                let last_row = self.rows - 1;
                let last_col = self.cols - 1;
                self.cursor_row = if r < last_row { r } else { last_row };
                self.cursor_col = if c < last_col { c } else { last_col };
            },
            TerminalCommand::CarriageReturn => self.cursor_col = 0,
            TerminalCommand::Backspace => {
                self.cursor_col = self.cursor_col.saturating_sub(1);
            },
            TerminalCommand::Tab => {
                self.cursor_col = ((self.cursor_col / 8) + 1) * 8;
                if self.cursor_col >= self.cols {
                    self.cursor_col = self.cols - 1;
                }
            },
            _ => {},
        }
    }

    /// The commands that change the current rendition.
    #[verifier::rlimit(40)]
    fn apply_rendition(&mut self, cmd: &TerminalCommand)
        requires
            old(self)@.wf(),
            is_rendition(*cmd),
        ensures
            final(self)@ == old(self)@.apply(*cmd),
            final(self)@.wf(),
    {
        match cmd {
            TerminalCommand::SetForeground(c) => self.current_fg = *c,
            TerminalCommand::SetBackground(c) => self.current_bg = *c,
            TerminalCommand::SetBold => self.current_flags.bold = true,
            TerminalCommand::SetDim => self.current_flags.dim = true,
            TerminalCommand::SetItalic => self.current_flags.italic = true,
            TerminalCommand::SetUnderline => self.current_flags.underline = true,
            TerminalCommand::SetInverse => self.current_flags.inverse = true,
            TerminalCommand::SetHidden => self.current_flags.hidden = true,
            TerminalCommand::SetStrikethrough => self.current_flags.strikethrough = true,
            TerminalCommand::ResetBold => {
                self.current_flags.bold = false;
                self.current_flags.dim = false;
            },
            TerminalCommand::ResetItalic => self.current_flags.italic = false,
            TerminalCommand::ResetUnderline => self.current_flags.underline = false,
            TerminalCommand::ResetInverse => self.current_flags.inverse = false,
            TerminalCommand::ResetHidden => self.current_flags.hidden = false,
            TerminalCommand::ResetStrikethrough => self.current_flags.strikethrough = false,
            TerminalCommand::ResetAttributes => {
                self.current_fg = Color::Default;
                self.current_bg = Color::Default;
                self.current_flags = CellFlags::empty();
            },
            _ => {},
        }
    }

    /// Whether `apply` can carry out `cmd` on this grid (see
    /// `apply_defined`).
    pub fn can_apply(&self, cmd: &TerminalCommand) -> (b: bool)
        ensures
            b == self@.apply_defined(*cmd),
    {
        let has_cells = self.rows > 0 && self.cols > 0;
        match cmd {
            TerminalCommand::Print(_) => has_cells,
            TerminalCommand::CursorDown(_) => self.rows > 0,
            TerminalCommand::CursorForward(_) => self.cols > 0,
            TerminalCommand::CursorPosition { .. } => has_cells,
            TerminalCommand::Newline => self.rows > 0,
            TerminalCommand::Tab => self.cols > 0,
            TerminalCommand::DeleteChars(_) => !(self.cursor_col < self.cols) || self.rows > 0,
            TerminalCommand::EraseInLine(mode) => self.erase_in_line_ok(*mode),
            TerminalCommand::EraseInDisplay(mode) => (*mode != 0 || self.erase_in_line_ok(0)) && (*mode != 1
                || self.erase_in_line_ok(1)),
            _ => true,
        }
    }

    fn erase_in_line_ok(&self, mode: u16) -> (b: bool)
        ensures
            b == self@.erase_in_line_defined(mode),
    {
        if mode == 0 {
            !(self.cursor_col < self.cols) || self.rows > 0
        } else if mode == 1 {
            self.rows > 0 && self.cursor_col < self.cols
        } else if mode == 2 {
            !(self.cols > 0) || self.rows > 0
        } else {
            true
        }
    }

    /// Carries out one terminal command.
    pub fn apply(&mut self, cmd: &TerminalCommand)
        requires
            old(self)@.wf(),
            old(self)@.apply_defined(*cmd),
        ensures
            final(self)@ == old(self)@.apply(*cmd),
            final(self)@.wf(),
    {
        if is_motion_exec(cmd) {
            self.apply_motion(cmd);
            return;
        }
        if is_rendition_exec(cmd) {
            self.apply_rendition(cmd);
            return;
        }
        match cmd {
            TerminalCommand::Print(c) => self.print(*c),
            TerminalCommand::Newline => self.newline(),
            TerminalCommand::ShowCursor => self.cursor_visible = true,
            TerminalCommand::HideCursor => self.cursor_visible = false,
            TerminalCommand::DeleteChars(n) => self.delete_chars(*n),
            TerminalCommand::EraseInLine(mode) => self.erase_in_line(*mode),
            TerminalCommand::EraseInDisplay(mode) => self.erase_in_display(*mode),
            _ => {},
        }
    }

    /// Changes the size: rows are cut or padded with blanks, the cursor
    /// stays inside.
    pub fn resize(&mut self, cols: u16, rows: u16)
        requires
            old(self)@.wf(),
            cols >= 1,
            rows >= 1,
        ensures
            final(self)@ == old(self)@.resize(cols as nat, rows as nat),
            final(self)@.wf(),
    {
        let ghost orig = self@;
        let new_cols = cols as usize;
        let new_rows = rows as usize;
        let ghost widened = Seq::new(orig.cells.len(), |r: int| resize_row(orig.cells[r], new_cols as nat));
        let mut cells: Vec<Vec<Cell>> = Vec::new();
        std::mem::swap(&mut cells, &mut self.cells);
        assert(rows_of(cells@) == orig.cells);
        let mut i: usize = 0;
        while i < cells.len()
            invariant
                i <= cells.len(),
                cells@.len() == orig.cells.len(),
                widened == Seq::new(orig.cells.len(), |r: int| resize_row(orig.cells[r], new_cols as nat)),
                forall|r: int| 0 <= r < i ==> #[trigger] cells@[r]@ == widened[r],
                forall|r: int| i <= r < cells@.len() ==> #[trigger] cells@[r]@ == orig.cells[r],
            decreases cells.len() - i,
        {
            let ghost before = cells@;
            assert(before[i as int]@ == orig.cells[i as int]);
            let row: &mut Vec<Cell> = &mut cells[i];
            resize_row_vec(row, new_cols);
            assert(cells@[i as int]@ == widened[i as int]);
            i = i + 1;
        }
        if cells.len() > new_rows {
            cells.truncate(new_rows);
        } else {
            while cells.len() < new_rows
                invariant
                    orig.cells.len() <= cells.len() <= new_rows,
                    widened.len() == orig.cells.len(),
                    forall|r: int| 0 <= r < cells@.len() ==> #[trigger] cells@[r]@ == (if r < widened.len() {
                        widened[r]
                    } else {
                        default_row(new_cols as nat)
                    }),
                decreases new_rows - cells.len(),
            {
                let blank_row = default_row_vec(new_cols);
                let ghost before = cells@;
                cells.push(blank_row);
                assert(forall|r: int| 0 <= r < before.len() ==> cells@[r] == before[r]);
            }
        }
        assert(rows_of(cells@) =~= orig.resize(cols as nat, rows as nat).cells);
        self.cells = cells;
        self.cols = new_cols;
        self.rows = new_rows;
        self.cursor_row = if self.cursor_row < self.rows - 1 { self.cursor_row } else { self.rows - 1 };
        self.cursor_col = if self.cursor_col < self.cols - 1 { self.cursor_col } else { self.cols - 1 };
        assert forall|r: int| 0 <= r < self@.rows implies (#[trigger] self@.cells[r]).len() == self@.cols by {
            if r < widened.len() {
                assert(self@.cells[r] == widened[r]);
            }
        }
    }

    /// The rows the view shows (see `GridModel::visible`).
    pub fn visible_cells(&self) -> (v: Vec<Vec<Cell>>)
        requires
            self@.wf(),
        ensures
            rows_of(v@) == self@.visible(),
    {
        let mut result: Vec<Vec<Cell>> = Vec::new();
        if self.scroll_offset == 0 {
            let mut i: usize = 0;
            while i < self.cells.len()
                invariant
                    i <= self.cells.len(),
                    rows_of(result@) == rows_of(self.cells@).take(i as int),
                decreases self.cells.len() - i,
            {
                let row = copy_cells(&self.cells[i], 0, self.cells[i].len());
                assert(row@ =~= self.cells@[i as int]@);
                proof { lemma_rows_of_push(result@, row); }
                result.push(row);
                assert(rows_of(self.cells@)[i as int] == self.cells@[i as int]@);
                assert(rows_of(result@) =~= rows_of(self.cells@).take((i + 1) as int));
                i = i + 1;
            }
            assert(rows_of(self.cells@).take(i as int) =~= rows_of(self.cells@));
            return result;
        }
        let sb_len = self.scrollback.len();
        let sb_start = sb_len - self.scroll_offset;
        let ghost from_sb = self@.scrollback.subrange(sb_start as int, sb_len as int);
        let mut i = sb_start;
        while i < sb_len
            invariant
                sb_start <= i <= sb_len == self.scrollback.len(),
                from_sb == self@.scrollback.subrange(sb_start as int, sb_len as int),
                rows_of(result@) == from_sb.take(i - sb_start),
            decreases sb_len - i,
        {
            let row = copy_cells(&self.scrollback[i], 0, self.scrollback[i].len());
            assert(row@ =~= self.scrollback@[i as int]@);
            proof { lemma_rows_of_push(result@, row); }
            result.push(row);
            assert(rows_of(self.scrollback@)[i as int] == self.scrollback@[i as int]@);
            assert(from_sb[i - sb_start] == self@.scrollback[i as int]);
            assert(rows_of(result@) =~= from_sb.take(i + 1 - sb_start));
            i = i + 1;
        }
        assert(from_sb.take(sb_len - sb_start) =~= from_sb);
        let taken = if result.len() < self.rows { result.len() } else { self.rows };
        let needed = self.rows - taken;
        let ghost with_sb = rows_of(result@);
        let mut j: usize = 0;
        while j < needed
            invariant
                j <= needed <= self.rows == self.cells.len(),
                rows_of(result@) == with_sb + self@.cells.take(j as int),
            decreases needed - j,
        {
            let row = copy_cells(&self.cells[j], 0, self.cells[j].len());
            assert(row@ =~= self.cells@[j as int]@);
            proof { lemma_rows_of_push(result@, row); }
            result.push(row);
            assert(rows_of(self.cells@)[j as int] == self.cells@[j as int]@);
            assert(rows_of(result@) =~= with_sb + self@.cells.take((j + 1) as int));
            j = j + 1;
        }
        let ghost before_truncate = result@;
        result.truncate(self.rows);
        assert(rows_of(result@) =~= rows_of(before_truncate).take(self.rows as int));
        result
    }

    pub fn reset_scroll(&mut self)
        ensures
            final(self)@ == (GridModel { scroll_offset: 0, ..old(self)@ }),
    {
        self.scroll_offset = 0;
    }
}

} // verus!
