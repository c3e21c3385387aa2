//! Mouse selection over the absolute row space (scrollback followed by screen),
//! and the text a selection covers.
use vstd::prelude::*;
use crate::types::Cell;
use crate::grid::{Grid, rows_of};
use crate::text::{push_char, push_chars, trimmed_len, trim_end};

verus! {

/// A selection between two absolute positions `(row, col)`; `start` is where
/// the drag began, `end` where it is now.
#[derive(Debug, Clone, Copy, Default)]
pub struct Selection {
    pub start: (u32, u16),
    pub end: (u32, u16),
    pub active: bool,
}

/// `a` comes no later than `b` in reading order.
pub open spec fn pos_le(a: (u32, u16), b: (u32, u16)) -> bool {
    a.0 < b.0 || (a.0 == b.0 && a.1 <= b.1)
}

impl Selection {
    /// The two ends in reading order.
    pub open spec fn spec_normalized(self) -> ((u32, u16), (u32, u16)) {
        if pos_le(self.start, self.end) {
            (self.start, self.end)
        } else {
            (self.end, self.start)
        }
    }

    pub open spec fn spec_is_empty(self) -> bool {
        self.start == self.end
    }

    /// Whether the cell `(row, col)` lies in the selection: from the first
    /// end's column on its row, through whole rows, to the last end's column.
    pub open spec fn spec_contains(self, row: u32, col: u16) -> bool {
        let (s, e) = self.spec_normalized();
        &&& !self.spec_is_empty()
        &&& s.0 <= row <= e.0
        &&& (row == s.0 ==> col >= s.1)
        &&& (row == e.0 ==> col <= e.1)
    }

    /// Whether `screen_normalized` can answer without overflow.
    pub open spec fn screen_normalized_defined(self, view_base: u32, visible_rows: u16) -> bool {
        let (s, e) = self.spec_normalized();
        &&& view_base + visible_rows <= u32::MAX
        &&& (visible_rows == 0 && !self.spec_is_empty() ==> !(s.0 < view_base <= e.0))
    }

    /// The selection in screen coordinates for a view whose top row is the
    /// absolute row `view_base`; ends off the screen are clamped to its first
    /// or last row, and a selection wholly off the screen is `None`.
    pub open spec fn spec_screen_normalized(self, view_base: u32, visible_rows: u16) -> Option<
        ((u16, u16), (u16, u16)),
    > {
        let ((sr, sc), (er, ec)) = self.spec_normalized();
        let view_end = view_base + visible_rows;
        if self.spec_is_empty() || er < view_base || sr >= view_end {
            None
        } else {
            let screen_sr = if sr >= view_base { (sr - view_base) as u16 } else { 0u16 };
            let screen_sc = if sr >= view_base { sc } else { 0u16 };
            let screen_er = if er < view_end { (er - view_base) as u16 } else { (visible_rows - 1) as u16 };
            let screen_ec = if er < view_end { ec } else { u16::MAX };
            Some(((screen_sr, screen_sc), (screen_er, screen_ec)))
        }
    }

    pub fn begin(&mut self, row: u32, col: u16)
        ensures
            final(self).start == (row, col),
            final(self).end == (row, col),
            final(self).active,
    {
        self.start = (row, col);
        self.end = (row, col);
        self.active = true;
    }

    pub fn update(&mut self, row: u32, col: u16)
        ensures
            final(self).start == old(self).start,
            final(self).end == (row, col),
            final(self).active == old(self).active,
    {
        self.end = (row, col);
    }

    pub fn finish(&mut self)
        ensures
            final(self).start == old(self).start,
            final(self).end == old(self).end,
            !final(self).active,
    {
        self.active = false;
    }

    pub fn clear(&mut self)
        ensures
            final(self).start == (0u32, 0u16),
            final(self).end == (0u32, 0u16),
            !final(self).active,
    {
        self.active = false;
        self.start = (0, 0);
        self.end = (0, 0);
    }

    pub fn is_empty(&self) -> (b: bool)
        ensures
            b == self.spec_is_empty(),
    {
        self.start.0 == self.end.0 && self.start.1 == self.end.1
    }

    /// Returns (start, end) in normalized order (top-left to bottom-right).
    pub fn normalized(&self) -> (r: ((u32, u16), (u32, u16)))
        ensures
            r == self.spec_normalized(),
            pos_le(r.0, r.1),
    {
        let (s, e) = (self.start, self.end);
        if s.0 < e.0 || (s.0 == e.0 && s.1 <= e.1) {
            (s, e)
        } else {
            (e, s)
        }
    }

    /// Convert absolute selection to screen-relative for rendering.
    /// Returns None if the selection is entirely off-screen.
    pub fn screen_normalized(&self, view_base: u32, visible_rows: u16) -> (r: Option<
        ((u16, u16), (u16, u16)),
    >)
        requires
            self.screen_normalized_defined(view_base, visible_rows),
        ensures
            r == self.spec_screen_normalized(view_base, visible_rows),
    {
        if self.is_empty() {
            return None;
        }
        let ((sr, sc), (er, ec)) = self.normalized();
        let view_end = view_base + visible_rows as u32;
        if er < view_base || sr >= view_end {
            return None;
        }
        let screen_sr = if sr >= view_base { (sr - view_base) as u16 } else { 0 };
        let screen_sc = if sr >= view_base { sc } else { 0 };
        let screen_er = if er < view_end { (er - view_base) as u16 } else { visible_rows - 1 };
        let screen_ec = if er < view_end { ec } else { u16::MAX };
        Some(((screen_sr, screen_sc), (screen_er, screen_ec)))
    }

    pub fn contains(&self, row: u32, col: u16) -> (b: bool)
        ensures
            b == self.spec_contains(row, col),
    {
        if self.is_empty() {
            return false;
        }
        let ((sr, sc), (er, ec)) = self.normalized();
        if row < sr || row > er {
            return false;
        }
        if sr == er {
            return col >= sc && col <= ec;
        }
        if row == sr {
            return col >= sc;
        }
        if row == er {
            return col <= ec;
        }
        true
    }
}

/// The characters of `line` from column `col` up to (not including)
/// `col_end`, stepping over the spacer after each wide character.
pub open spec fn line_chars(line: Seq<Cell>, col: int, col_end: int) -> Seq<char>
    decreases col_end + 1 - col,
{
    if col < col_end && 0 <= col < line.len() {
        if line[col].flags.wide_char {
            seq![line[col].character] + line_chars(line, col + 2, col_end)
        } else {
            seq![line[col].character] + line_chars(line, col + 1, col_end)
        }
    } else {
        Seq::empty()
    }
}

/// The part of row `row` (whose cells are `line`) that the normalized
/// selection `((sr, sc), (er, ec))` covers, trailing white space removed.
pub open spec fn row_text(line: Seq<Cell>, row: int, sr: int, sc: int, er: int, ec: int) -> Seq<char> {
    let col_start = if row == sr { sc } else { 0 };
    let col_end = if row == er {
        if ec + 1 < line.len() { ec + 1 } else { line.len() as int }
    } else {
        line.len() as int
    };
    trim_end(line_chars(line, col_start, col_end))
}

/// The text of rows `row..=er` of `rows`: each row's covered part, a newline
/// after every row before `er`, stopping at the first row that does not exist.
pub open spec fn rows_text(rows: Seq<Seq<Cell>>, row: int, sr: int, sc: int, er: int, ec: int) -> Seq<char>
    decreases er + 1 - row,
{
    if row > er || row < 0 || row >= rows.len() {
        Seq::empty()
    } else {
        row_text(rows[row], row, sr, sc, er, ec) + (if row < er { seq!['\n'] } else { Seq::empty() })
            + rows_text(rows, row + 1, sr, sc, er, ec)
    }
}

/// The text that a selection covers in `rows`.
pub open spec fn selection_text(rows: Seq<Seq<Cell>>, sel: Selection) -> Seq<char> {
    if sel.spec_is_empty() {
        Seq::empty()
    } else {
        let ((sr, sc), (er, ec)) = sel.spec_normalized();
        rows_text(rows, sr as int, sr as int, sc as int, er as int, ec as int)
    }
}

/// Collects `line_chars(line, col_start, col_end)`.
fn collect_line(line: &Vec<Cell>, col_start: usize, col_end: usize) -> (out: Vec<char>)
    requires
        col_end <= line.len(),
    ensures
        out@ == line_chars(line@, col_start as int, col_end as int),
{
    let mut out: Vec<char> = Vec::new();
    let mut col = col_start;
    while col < col_end
        invariant
            col_end <= line.len(),
            out@ + line_chars(line@, col as int, col_end as int) == line_chars(
                line@,
                col_start as int,
                col_end as int,
            ),
        decreases col_end - col,
    {
        let cell = line[col];
        out.push(cell.character);
        proof {
            let step: int = if cell.flags.wide_char { 2 } else { 1 };
            if col + 1 >= col_end {
                assert(line_chars(line@, col + step, col_end as int) == Seq::<char>::empty());
                assert(line_chars(line@, col + 1, col_end as int) == Seq::<char>::empty());
            }
            assert(line_chars(line@, col as int, col_end as int) == seq![cell.character]
                + line_chars(line@, col + step, col_end as int));
            assert(out@ + line_chars(line@, col + step, col_end as int) == (out@.drop_last() + seq![
                cell.character,
            ]) + line_chars(line@, col + step, col_end as int));
        }
        col += 1;
        if cell.flags.wide_char && col < col_end {
            col += 1;
        }
    }
    assert(line_chars(line@, col as int, col_end as int) == Seq::<char>::empty());
    assert(out@ + Seq::<char>::empty() == out@);
    out
}

/// Appends `row_text` of one row to `result`.
fn push_row_text(result: &mut String, line: &Vec<Cell>, row: u32, sr: u32, sc: u16, er: u32, ec: u16)
    ensures
        final(result)@ == old(result)@ + row_text(line@, row as int, sr as int, sc as int, er as int, ec as int),
{
    let col_start: usize = if row == sr { sc as usize } else { 0 };
    let col_end: usize = if row == er {
        if (ec as usize) + 1 < line.len() { ec as usize + 1 } else { line.len() }
    } else {
        line.len()
    };
    let chars = collect_line(line, col_start, col_end);
    let n = trimmed_len(&chars);
    push_chars(result, &chars, 0, n);
    assert(chars@.subrange(0, n as int) == chars@.take(n as int));
}

/// The text the selection covers in the rows `first` followed by `second`.
fn extract_from(first: &[Vec<Cell>], second: &[Vec<Cell>], selection: &Selection) -> (s: String)
    ensures
        s@ == selection_text(rows_of(first@) + rows_of(second@), *selection),
{
    if selection.is_empty() {
        return String::new();
    }
    let ((sr, sc), (er, ec)) = selection.normalized();
    let mut result = String::new();
    let ghost rows = rows_of(first@) + rows_of(second@);
    let mut row = sr;
    loop
        invariant_except_break
            sr <= row <= er,
            rows == rows_of(first@) + rows_of(second@),
            result@ + rows_text(rows, row as int, sr as int, sc as int, er as int, ec as int)
                == rows_text(rows, sr as int, sr as int, sc as int, er as int, ec as int),
        ensures
            result@ == rows_text(rows, sr as int, sr as int, sc as int, er as int, ec as int),
        decreases er - row,
    {
        let line: &Vec<Cell> = if (row as usize) < first.len() {
            &first[row as usize]
        } else {
            let screen_row = row as usize - first.len();
            if screen_row >= second.len() {
                assert(rows_text(rows, row as int, sr as int, sc as int, er as int, ec as int) =~= Seq::<char>::empty());
                assert(result@ + Seq::<char>::empty() == result@);
                break;
            }
            &second[screen_row]
        };
        assert(rows[row as int] == line@);
        push_row_text(&mut result, line, row, sr, sc, er, ec);
        if row < er {
            push_char(&mut result, '\n');
        }
        proof {
            let rt = row_text(line@, row as int, sr as int, sc as int, er as int, ec as int);
            let nl: Seq<char> = if row < er { seq!['\n'] } else { Seq::empty() };
            assert(rows_text(rows, row as int, sr as int, sc as int, er as int, ec as int) == rt + nl
                + rows_text(rows, row + 1, sr as int, sc as int, er as int, ec as int));
        }
        if row == er {
            assert(rows_text(rows, row + 1, sr as int, sc as int, er as int, ec as int) == Seq::<char>::empty());
            assert(result@ + Seq::<char>::empty() == result@);
            break;
        }
        row = row + 1;
    }
    result
}

/// The text the selection covers in `cells`, rows joined by newlines, each
/// row's trailing white space trimmed, a wide character's spacer skipped.
pub fn extract_text(cells: &[Vec<Cell>], selection: &Selection) -> (s: String)
    ensures
        s@ == selection_text(rows_of(cells@), *selection),
{
    let none: Vec<Vec<Cell>> = Vec::new();
    let s = extract_from(cells, none.as_slice(), selection);
    assert(rows_of(cells@) + rows_of(none@) =~= rows_of(cells@));
    s
}

/// The text the selection covers, rows counted from the oldest scrollback
/// line through the screen.
pub fn extract_text_absolute(grid: &Grid, selection: &Selection) -> (s: String)
    requires
        grid@.wf(),
    ensures
        s@ == selection_text(grid@.scrollback + grid@.cells, *selection),
{
    extract_from(grid.scrollback(), grid.cells(), selection)
}


/// The rows after the first are read alike whether the selection starts on
/// the row before them or at column 0 of the first of them.
proof fn lemma_rows_text_after_first(rows: Seq<Seq<Cell>>, r: int, sr: int, sc: int, er: int, ec: int)
    requires
        sr < r,
    ensures
        rows_text(rows, r, sr, sc, er, ec) == rows_text(rows, r, sr + 1, 0, er, ec),
    decreases er + 1 - r,
{
    if !(r > er || r < 0 || r >= rows.len()) {
        lemma_rows_text_after_first(rows, r + 1, sr, sc, er, ec);
        assert(row_text(rows[r], r, sr, sc, er, ec) == row_text(rows[r], r, sr + 1, 0, er, ec));
    }
}

/// Copying a selection over several rows gives the part of its first row
/// from the start column to the row's end, a newline, and then what a
/// selection of the remaining rows from column 0 of the next row gives: a
/// row after the first is copied from its first column.
pub proof fn lemma_selection_splits_after_first_row(
    rows: Seq<Seq<Cell>>,
    sr: u32,
    sc: u16,
    er: u32,
    ec: u16,
    active: bool,
)
    requires
        sr < er,
        sr < rows.len(),
        sc < u16::MAX,
        rows[sr as int].len() <= u16::MAX + 1,
        !(sr + 1 == er && ec == 0),
    ensures
        selection_text(rows, Selection { start: (sr, sc), end: (er, ec), active }) == selection_text(
            rows,
            Selection { start: (sr, sc), end: (sr, u16::MAX), active },
        ) + seq!['\n'] + selection_text(rows, Selection { start: ((sr + 1) as u32, 0u16), end: (er, ec), active }),
{
    let (s, c, e, d) = (sr as int, sc as int, er as int, ec as int);
    let line = rows[s];
    lemma_rows_text_after_first(rows, s + 1, s, c, e, d);
    let first = row_text(line, s, s, c, s, u16::MAX as int);
    assert(row_text(line, s, s, c, e, d) == first);
    assert(rows_text(rows, s + 1, s, c, s, u16::MAX as int) == Seq::<char>::empty());
    assert(rows_text(rows, s, s, c, s, u16::MAX as int) == first + Seq::<char>::empty() + Seq::<char>::empty());
    assert(first + Seq::<char>::empty() + Seq::<char>::empty() =~= first);
    assert(rows_text(rows, s, s, c, e, d) == first + seq!['\n'] + rows_text(rows, s + 1, s, c, e, d));
}

/// The same selection dragged the other way.
pub open spec fn reversed(sel: Selection) -> Selection {
    Selection { start: sel.end, end: sel.start, active: sel.active }
}

/// The normalized ends come in reading order, and a selection covers the
/// same cells whichever way it was dragged.
pub proof fn lemma_selection_direction_free(sel: Selection, row: u32, col: u16)
    ensures
        pos_le(sel.spec_normalized().0, sel.spec_normalized().1),
        reversed(sel).spec_normalized() == sel.spec_normalized(),
        reversed(sel).spec_contains(row, col) == sel.spec_contains(row, col),
{
}

/// A cell inside the selection lies between its ends in reading order.
pub proof fn lemma_contains_between_ends(sel: Selection, row: u32, col: u16)
    requires
        sel.spec_contains(row, col),
    ensures
        pos_le(sel.spec_normalized().0, (row, col)),
        pos_le((row, col), sel.spec_normalized().1),
{
}

} // verus!
