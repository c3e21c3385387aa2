//! The grid dump: a plain-text picture of the screen that the app writes for
//! its end-to-end tests, and the reader those tests use.
//!
//! The format is a line `cursor:ROW,COL`, a line `grid:`, then one line per
//! screen row with its trailing blanks (spaces and NULs) cut off. The
//! preedit, when there is one, is drawn over the cursor row from the cursor
//! column on.
use vstd::prelude::*;

use crate::text::{decimal, digit_char, push_char, push_decimal};
use crate::types::Cell;

verus! {

/// A blank of the dump: a space or a NUL.
pub open spec fn is_blank(c: char) -> bool {
    c == '\0' || c == ' '
}

/// `s` without its trailing blanks.
pub open spec fn trim_blank_end(s: Seq<char>) -> Seq<char>
    decreases s.len(),
{
    if s.len() > 0 && is_blank(s.last()) {
        trim_blank_end(s.drop_last())
    } else {
        s
    }
}

/// The characters of a row of cells.
pub open spec fn cell_chars(row: Seq<Cell>) -> Seq<char> {
    row.map_values(|c: Cell| c.character)
}

/// `chars` with `pre` written over it from column `col` on, padded with
/// spaces where `pre` reaches past its end.
pub open spec fn overlay(chars: Seq<char>, col: int, pre: Seq<char>) -> Seq<char> {
    let n = if chars.len() >= col + pre.len() {
        chars.len() as int
    } else {
        col + pre.len()
    };
    Seq::new(
        n as nat,
        |i: int|
            if col <= i < col + pre.len() {
                pre[i - col]
            } else if i < chars.len() {
                chars[i]
            } else {
                ' '
            },
    )
}

/// The dump line of one row: its characters, the preedit over them on the
/// cursor row, trailing blanks cut.
pub open spec fn dump_row(row: Seq<Cell>, on_cursor_row: bool, col: int, pre: Seq<char>) -> Seq<char> {
    let chars = cell_chars(row);
    trim_blank_end(
        if on_cursor_row && pre.len() > 0 {
            overlay(chars, col, pre)
        } else {
            chars
        },
    )
}

/// The dump line of row `r` of `cells`.
pub open spec fn row_line(cells: Seq<Vec<Cell>>, r: int, cursor: (u16, u16), pre: Seq<char>) -> Seq<char> {
    dump_row(cells[r]@, r == cursor.0, cursor.1 as int, pre)
}

/// The dump lines of rows `i..` of `cells`, each ended by a newline.
pub open spec fn dump_rows_from(cells: Seq<Vec<Cell>>, i: int, cursor: (u16, u16), pre: Seq<char>) -> Seq<
    char,
>
    decreases cells.len() - i,
{
    if i < 0 || i >= cells.len() {
        seq![]
    } else {
        row_line(cells, i, cursor, pre).push('\n') + dump_rows_from(cells, i + 1, cursor, pre)
    }
}

pub open spec fn cursor_tag() -> Seq<char> {
    seq!['c', 'u', 'r', 's', 'o', 'r', ':']
}

pub open spec fn grid_tag() -> Seq<char> {
    seq!['g', 'r', 'i', 'd', ':']
}

/// The first line of a dump.
pub open spec fn cursor_line(cursor: (u16, u16)) -> Seq<char> {
    cursor_tag() + decimal(cursor.0 as nat) + seq![','] + decimal(cursor.1 as nat)
}

/// The whole dump of `cells` with the cursor at `cursor` and preedit `pre`.
pub open spec fn spec_grid_dump(cells: Seq<Vec<Cell>>, cursor: (u16, u16), pre: Seq<char>) -> Seq<char> {
    cursor_line(cursor).push('\n') + grid_tag().push('\n') + dump_rows_from(cells, 0, cursor, pre)
}

/// Some cell of `cells` holds more than a blank.
pub open spec fn spec_has_content(cells: Seq<Vec<Cell>>) -> bool {
    exists|r: int, j: int|
        0 <= r < cells.len() && 0 <= j < cells[r]@.len() && !is_blank(#[trigger] cells[r]@[j].character)
}

/// Whether the screen holds anything but blanks (the app dumps only then).
pub fn grid_has_content(cells: &[Vec<Cell>]) -> (b: bool)
    ensures
        b == spec_has_content(cells@),
{
    let mut r: usize = 0;
    while r < cells.len()
        invariant
            r <= cells@.len(),
            forall|r2: int, j: int|
                0 <= r2 < r && 0 <= j < cells@[r2]@.len() ==> is_blank(#[trigger] cells@[r2]@[j].character),
        decreases cells.len() - r,
    {
        let row = &cells[r];
        let mut j: usize = 0;
        while j < row.len()
            invariant
                r < cells@.len(),
                *row == cells@[r as int],
                j <= row@.len(),
                forall|j2: int| 0 <= j2 < j ==> is_blank(#[trigger] row@[j2].character),
            decreases row.len() - j,
        {
            let c = row[j].character;
            if !(c == '\0' || c == ' ') {
                assert(!is_blank(cells@[r as int]@[j as int].character));
                return true;
            }
            j = j + 1;
        }
        r = r + 1;
    }
    false
}

/// The characters of `s`.
pub fn str_chars(s: &str) -> (v: Vec<char>)
    ensures
        v@ == s@,
{
    let n = s.unicode_len();
    let mut v: Vec<char> = Vec::new();
    let mut i: usize = 0;
    while i < n
        invariant
            i <= n == s@.len(),
            v@ == s@.take(i as int),
        decreases n - i,
    {
        v.push(s.get_char(i));
        assert(s@.take(i + 1) =~= s@.take(i as int).push(s@[i as int]));
        i = i + 1;
    }
    assert(s@.take(n as int) =~= s@);
    v
}

/// The length of `v` without its trailing blanks.
fn trimmed_blank_len(v: &Vec<char>) -> (n: usize)
    ensures
        n <= v.len(),
        v@.take(n as int) == trim_blank_end(v@),
{
    let mut n = v.len();
    assert(v@.take(n as int) =~= v@);
    while n > 0 && (v[n - 1] == '\0' || v[n - 1] == ' ')
        invariant
            n <= v.len(),
            trim_blank_end(v@.take(n as int)) == trim_blank_end(v@),
        decreases n,
    {
        assert(v@.take(n as int).drop_last() =~= v@.take(n - 1));
        n = n - 1;
    }
    n
}

/// The characters of a row, with `pre` written over them from `col` on when
/// `on_cursor_row`.
fn row_chars(row: &Vec<Cell>, on_cursor_row: bool, col: usize, pre: &Vec<char>) -> (v: Vec<char>)
    requires
        col + pre.len() < usize::MAX,
    ensures
        v@ == (if on_cursor_row && pre.len() > 0 {
            overlay(cell_chars(row@), col as int, pre@)
        } else {
            cell_chars(row@)
        }),
{
    let mut chars: Vec<char> = Vec::new();
    let mut i: usize = 0;
    while i < row.len()
        invariant
            i <= row.len(),
            chars@ == cell_chars(row@).take(i as int),
        decreases row.len() - i,
    {
        chars.push(row[i].character);
        assert(cell_chars(row@).take(i + 1) =~= cell_chars(row@).take(i as int).push(
            row@[i as int].character,
        ));
        i = i + 1;
    }
    assert(cell_chars(row@).take(row.len() as int) =~= cell_chars(row@));
    if !(on_cursor_row && pre.len() > 0) {
        return chars;
    }
    let ghost base = cell_chars(row@);
    let mut j: usize = 0;
    while j < pre.len()
        invariant
            col + pre.len() < usize::MAX,
            j <= pre.len(),
            j == 0 ==> chars@ == base,
            j > 0 ==> chars@ == overlay(base, col as int, pre@.take(j as int)),
        decreases pre.len() - j,
    {
        let pos = col + j;
        let ghost cur = chars@;
        while chars.len() <= pos
            invariant
                pos == col + j,
                col + pre.len() < usize::MAX,
                j < pre.len(),
                chars@.len() == cur.len() || chars@.len() <= pos + 1,
                chars@.len() >= cur.len(),
                forall|k: int|
                    0 <= k < chars@.len() ==> #[trigger] chars@[k] == (if k < cur.len() {
                        cur[k]
                    } else {
                        ' '
                    }),
            decreases pos + 1 - chars.len(),
        {
            chars.push(' ');
        }
        chars.set(pos, pre[j]);
        assert(chars@ =~= overlay(base, col as int, pre@.take(j + 1)));
        j = j + 1;
    }
    assert(pre@.take(pre.len() as int) =~= pre@);
    chars
}

/// The dump of the screen `cells` with the cursor at `cursor` and the
/// preedit `preedit` (empty when there is none).
pub fn grid_dump(cells: &[Vec<Cell>], cursor: (u16, u16), preedit: &str) -> (s: String)
    requires
        preedit@.len() + cursor.1 < usize::MAX,
    ensures
        s@ == spec_grid_dump(cells@, cursor, preedit@),
{
    let pre = str_chars(preedit);
    let mut s = String::new();
    push_char(&mut s, 'c');
    push_char(&mut s, 'u');
    push_char(&mut s, 'r');
    push_char(&mut s, 's');
    push_char(&mut s, 'o');
    push_char(&mut s, 'r');
    push_char(&mut s, ':');
    push_decimal(&mut s, cursor.0 as u64);
    push_char(&mut s, ',');
    push_decimal(&mut s, cursor.1 as u64);
    push_char(&mut s, '\n');
    push_char(&mut s, 'g');
    push_char(&mut s, 'r');
    push_char(&mut s, 'i');
    push_char(&mut s, 'd');
    push_char(&mut s, ':');
    push_char(&mut s, '\n');
    let ghost header = cursor_line(cursor).push('\n') + grid_tag().push('\n');
    assert(s@ =~= header);
    let mut r: usize = 0;
    while r < cells.len()
        invariant
            r <= cells@.len(),
            pre@ == preedit@,
            pre@.len() + cursor.1 < usize::MAX,
            s@ + dump_rows_from(cells@, r as int, cursor, pre@) == header + dump_rows_from(
                cells@,
                0,
                cursor,
                pre@,
            ),
        decreases cells.len() - r,
    {
        let on_cursor_row = r == cursor.0 as usize;
        let chars = row_chars(&cells[r], on_cursor_row, cursor.1 as usize, &pre);
        let n = trimmed_blank_len(&chars);
        let ghost before = s@;
        let mut k: usize = 0;
        while k < n
            invariant
                k <= n <= chars.len(),
                s@ == before + chars@.take(k as int),
            decreases n - k,
        {
            push_char(&mut s, chars[k]);
            assert(chars@.take(k + 1) =~= chars@.take(k as int).push(chars@[k as int]));
            k = k + 1;
        }
        push_char(&mut s, '\n');
        proof {
            let line = row_line(cells@, r as int, cursor, pre@);
            assert(line == chars@.take(n as int));
            assert(s@ == before + line.push('\n'));
            assert(dump_rows_from(cells@, r as int, cursor, pre@) == line.push('\n') + dump_rows_from(
                cells@,
                r + 1,
                cursor,
                pre@,
            ));
            assert(before + (line.push('\n') + dump_rows_from(cells@, r + 1, cursor, pre@)) =~= s@
                + dump_rows_from(cells@, r + 1, cursor, pre@));
        }
        r = r + 1;
    }
    assert(s@ + dump_rows_from(cells@, r as int, cursor, pre@) =~= s@);
    s
}


/// What a redraw does for the end-to-end tests once the screen has content.
#[derive(Debug, Clone, Copy, PartialEq, Eq, Structural)]
pub enum DumpStep {
    /// The dump is already written: nothing more.
    Done,
    /// Drop the test's file on the window first.
    DropFile,
    /// Type the test's input first.
    TypeInput,
    /// Write the dump.
    WriteDump,
}

/// The test steps still to come before the dump is written: a file to drop
/// and some input to type, each at most once.
pub struct DumpScript {
    pub drop_pending: bool,
    pub input_pending: bool,
}

impl DumpScript {
    /// A script with a file to drop when `drop_path` is a non-empty path and
    /// input to type when there is some.
    pub fn new(drop_path: Option<&str>, has_input: bool) -> (d: Self)
        ensures
            d.drop_pending == (drop_path matches Some(p) && p@.len() > 0),
            d.input_pending == has_input,
    {
        let drop_pending = match drop_path {
            Some(p) => p.unicode_len() > 0,
            None => false,
        };
        DumpScript { drop_pending, input_pending: has_input }
    }

    /// The step of a redraw that changed the screen or the preedit: none once
    /// the dump exists; then the file drop, then the input, each once; then
    /// the dump.
    pub fn next_step(&mut self, dump_exists: bool) -> (step: DumpStep)
        ensures
            dump_exists ==> step == DumpStep::Done && *final(self) == *old(self),
            !dump_exists && old(self).drop_pending ==> step == DumpStep::DropFile && !final(self).drop_pending
                && final(self).input_pending == old(self).input_pending,
            !dump_exists && !old(self).drop_pending && old(self).input_pending ==> step == DumpStep::TypeInput
                && !final(self).input_pending && !final(self).drop_pending,
            !dump_exists && !old(self).drop_pending && !old(self).input_pending ==> step == DumpStep::WriteDump
                && *final(self) == *old(self),
    {
        if dump_exists {
            DumpStep::Done
        } else if self.drop_pending {
            self.drop_pending = false;
            DumpStep::DropFile
        } else if self.input_pending {
            self.input_pending = false;
            DumpStep::TypeInput
        } else {
            DumpStep::WriteDump
        }
    }
}

} // verus!
