//! Reading a grid dump back: the cursor position and the row lines.
use vstd::prelude::*;

use crate::grid_dump::{
    cell_chars, cursor_line, cursor_tag, dump_row, dump_rows_from, grid_tag, is_blank, overlay,
    row_line, spec_grid_dump, str_chars, trim_blank_end,
};
use crate::text::{decimal, digit_char, push_char};
use crate::types::Cell;

verus! {

/// The first index at or after `i` that holds `c`, or the length.
pub open spec fn index_from(s: Seq<char>, c: char, i: int) -> int
    decreases s.len() - i,
{
    if i >= s.len() {
        s.len() as int
    } else if i >= 0 && s[i] == c {
        i
    } else {
        index_from(s, c, i + 1)
    }
}

/// `l` without one trailing carriage return.
pub open spec fn strip_cr(l: Seq<char>) -> Seq<char> {
    if l.len() > 0 && l.last() == '\r' {
        l.drop_last()
    } else {
        l
    }
}

/// The lines of `s` as `str::lines` gives them: split after each newline,
/// a line's `\r\n` ending counting as its newline, and no empty line after
/// a final newline.
pub open spec fn lines(s: Seq<char>) -> Seq<Seq<char>>
    decreases s.len(),
{
    if s.len() == 0 {
        seq![]
    } else {
        let k = index_from(s, '\n', 0);
        if k >= s.len() {
            seq![s]
        } else {
            proof {
                lemma_index_from_bounds(s, '\n', 0);
            }
            seq![strip_cr(s.take(k))] + lines(s.skip(k + 1))
        }
    }
}

pub open spec fn is_digit_char(c: char) -> bool {
    '0' <= c && c <= '9'
}

/// The value of a string of decimal digits.
pub open spec fn dec_value(s: Seq<char>) -> nat
    decreases s.len(),
{
    if s.len() == 0 {
        0
    } else {
        dec_value(s.drop_last()) * 10 + ((s.last() as nat) - 48) as nat
    }
}

/// `s` without one leading `+`.
pub open spec fn plus_body(s: Seq<char>) -> Seq<char> {
    if s.len() > 0 && s[0] == '+' {
        s.drop_first()
    } else {
        s
    }
}

/// What `str::parse::<u16>` accepts: an optional `+`, then one or more
/// digits whose value fits.
pub open spec fn parses_u16(s: Seq<char>) -> bool {
    let b = plus_body(s);
    &&& b.len() > 0
    &&& forall|i: int| 0 <= i < b.len() ==> is_digit_char(#[trigger] b[i])
    &&& dec_value(b) <= u16::MAX
}

pub open spec fn u16_value(s: Seq<char>) -> u16 {
    dec_value(plus_body(s)) as u16
}

/// The two fields of a cursor line: what follows `cursor:` up to the first
/// comma, and what follows that comma up to the next one (none without a
/// comma).
pub open spec fn cursor_fields(line: Seq<char>) -> (Seq<char>, Option<Seq<char>>) {
    let body = line.skip(7);
    let k = index_from(body, ',', 0);
    if k >= body.len() {
        (body, None)
    } else {
        let rest = body.skip(k + 1);
        (body.take(k), Some(rest.take(index_from(rest, ',', 0))))
    }
}

/// A dump that the reader takes: a cursor line with two numbers, then the
/// `grid:` line.
pub open spec fn dump_wf(s: Seq<char>) -> bool {
    let ls = lines(s);
    &&& ls.len() >= 2
    &&& cursor_tag().is_prefix_of(ls[0])
    &&& cursor_fields(ls[0]).1 is Some
    &&& parses_u16(cursor_fields(ls[0]).0)
    &&& parses_u16(cursor_fields(ls[0]).1->0)
    &&& ls[1] == grid_tag()
}

/// What the reader gives back: cursor row, cursor column, the row lines.
pub open spec fn spec_parse_dump(s: Seq<char>) -> (u16, u16, Seq<Seq<char>>) {
    let ls = lines(s);
    let f = cursor_fields(ls[0]);
    (u16_value(f.0), u16_value(f.1->0), ls.skip(2))
}

pub proof fn lemma_index_from_bounds(s: Seq<char>, c: char, i: int)
    requires
        0 <= i <= s.len(),
    ensures
        i <= index_from(s, c, i) <= s.len(),
        index_from(s, c, i) < s.len() ==> s[index_from(s, c, i)] == c,
    decreases s.len() - i,
{
    if i < s.len() && s[i] != c {
        lemma_index_from_bounds(s, c, i + 1);
    }
}

/// Searching a suffix is searching the whole from further on.
proof fn lemma_index_shift(s: Seq<char>, c: char, p: int, i: int)
    requires
        0 <= p <= s.len(),
        0 <= i,
    ensures
        index_from(s.skip(p), c, i) == index_from(s, c, p + i) - p,
    decreases s.len() - p - i,
{
    if p + i < s.len() && s[p + i] != c {
        lemma_index_shift(s, c, p, i + 1);
    }
}

/// With no `c` in `i..b` and `c` at `b` (or `b` the length), the search
/// from `i` stops at `b`.
proof fn lemma_index_at(s: Seq<char>, c: char, i: int, b: int)
    requires
        0 <= i <= b <= s.len(),
        forall|j: int| i <= j < b ==> s[j] != c,
        b < s.len() ==> s[b] == c,
    ensures
        index_from(s, c, i) == b,
    decreases b - i,
{
    if i < b {
        lemma_index_at(s, c, i + 1, b);
    }
}

/// A line without a newline and without a trailing carriage return, then a
/// newline, is the first line.
proof fn lemma_lines_cons(a: Seq<char>, y: Seq<char>)
    requires
        forall|j: int| 0 <= j < a.len() ==> a[j] != '\n',
        a.len() > 0 ==> a.last() != '\r',
    ensures
        lines(a.push('\n') + y) == seq![a] + lines(y),
{
    let s = a.push('\n') + y;
    lemma_index_at(s, '\n', 0, a.len() as int);
    assert(s.take(a.len() as int) =~= a);
    assert(s.skip(a.len() as int + 1) =~= y);
}

fn index_of(v: &Vec<char>, c: char, from: usize) -> (k: usize)
    requires
        from <= v.len(),
    ensures
        k as int == index_from(v@, c, from as int),
{
    let mut k = from;
    while k < v.len() && v[k] != c
        invariant
            from <= k <= v.len(),
            index_from(v@, c, k as int) == index_from(v@, c, from as int),
        decreases v.len() - k,
    {
        k = k + 1;
    }
    k
}

pub(crate) fn chars_to_string(v: &Vec<char>, from: usize, to: usize) -> (s: String)
    requires
        from <= to <= v.len(),
    ensures
        s@ == v@.subrange(from as int, to as int),
{
    let mut s = String::new();
    let mut i = from;
    while i < to
        invariant
            from <= i <= to <= v.len(),
            s@ == v@.subrange(from as int, i as int),
        decreases to - i,
    {
        push_char(&mut s, v[i]);
        assert(v@.subrange(from as int, i + 1) =~= v@.subrange(from as int, i as int).push(v@[i as int]));
        i = i + 1;
    }
    s
}

/// The lines of `v`, each as the range of `v` it takes.
pub(crate) fn line_ranges(v: &Vec<char>) -> (out: Vec<(usize, usize)>)
    ensures
        out@.len() == lines(v@).len(),
        forall|i: int|
            #![trigger out@[i]]
            0 <= i < out@.len() ==> out@[i].0 <= out@[i].1 <= v@.len() && lines(v@)[i]
                == v@.subrange(out@[i].0 as int, out@[i].1 as int),
{
    let mut out: Vec<(usize, usize)> = Vec::new();
    let ghost mut done: Seq<Seq<char>> = seq![];
    let mut pos: usize = 0;
    assert(v@.skip(0) =~= v@);
    assert(done + lines(v@) =~= lines(v@));
    while pos < v.len()
        invariant
            pos <= v.len(),
            out@.len() == done.len(),
            forall|i: int|
                #![trigger out@[i]]
                0 <= i < out@.len() ==> out@[i].0 <= out@[i].1 <= v@.len() && done[i]
                    == v@.subrange(out@[i].0 as int, out@[i].1 as int),
            done + lines(v@.skip(pos as int)) == lines(v@),
        decreases v.len() - pos,
    {
        let k = index_of(v, '\n', pos);
        let ghost rest = v@.skip(pos as int);
        proof {
            lemma_index_shift(v@, '\n', pos as int, 0);
            lemma_index_from_bounds(v@, '\n', pos as int);
        }
        if k >= v.len() {
            out.push((pos, v.len()));
            proof {
                assert(lines(rest) == seq![rest]);
                assert(rest =~= v@.subrange(pos as int, v.len() as int));
                done = done.push(rest);
                assert(done + lines(v@.skip(v.len() as int)) =~= lines(v@));
            }
            pos = v.len();
        } else {
            let end = if k > pos && v[k - 1] == '\r' {
                k - 1
            } else {
                k
            };
            out.push((pos, end));
            proof {
                let line = strip_cr(rest.take(k - pos));
                assert(rest.take(k - pos) =~= v@.subrange(pos as int, k as int));
                assert(line =~= v@.subrange(pos as int, end as int));
                assert(lines(rest) == seq![line] + lines(rest.skip(k - pos + 1)));
                assert(rest.skip(k - pos + 1) =~= v@.skip(k + 1));
                done = done.push(line);
                assert(done + lines(v@.skip(k + 1)) =~= lines(v@));
            }
            pos = k + 1;
        }
    }
    proof {
        assert(lines(v@.skip(pos as int)) == Seq::<Seq<char>>::empty());
        assert(done =~= lines(v@));
    }
    out
}

pub(crate) proof fn lemma_dec_value_prefix(s: Seq<char>, i: int)
    requires
        0 <= i <= s.len(),
    ensures
        dec_value(s.take(i)) <= dec_value(s),
    decreases s.len() - i,
{
    if i < s.len() {
        lemma_dec_value_prefix(s, i + 1);
        assert(s.take(i + 1).drop_last() =~= s.take(i));
    } else {
        assert(s.take(i) =~= s);
    }
}

/// The value of the digits `v[from..to]`, after an optional `+`.
fn parse_u16_range(v: &Vec<char>, from: usize, to: usize) -> (n: u16)
    requires
        from <= to <= v.len(),
        parses_u16(v@.subrange(from as int, to as int)),
    ensures
        n == u16_value(v@.subrange(from as int, to as int)),
{
    let ghost s = v@.subrange(from as int, to as int);
    let start = if v[from] == '+' {
        from + 1
    } else {
        from
    };
    let ghost b = v@.subrange(start as int, to as int);
    assert(b =~= plus_body(s));
    let mut acc: u32 = 0;
    let mut i = start;
    while i < to
        invariant
            start <= i <= to <= v.len(),
            b == v@.subrange(start as int, to as int),
            forall|j: int| 0 <= j < b.len() ==> is_digit_char(#[trigger] b[j]),
            dec_value(b) <= u16::MAX,
            acc == dec_value(b.take(i - start)),
        decreases to - i,
    {
        proof {
            lemma_dec_value_prefix(b, i - start + 1);
            assert(b.take(i - start + 1).drop_last() =~= b.take(i - start));
            assert(is_digit_char(b[i - start]));
        }
        let d = v[i] as u32 - 48;
        acc = acc * 10 + d;
        i = i + 1;
    }
    assert(b.take(to - start) =~= b);
    acc as u16
}

/// Reads a dump: the cursor row and column, and the row lines.
pub fn parse_dump(content: &str) -> (r: (u16, u16, Vec<String>))
    requires
        dump_wf(content@),
    ensures
        r.0 == spec_parse_dump(content@).0,
        r.1 == spec_parse_dump(content@).1,
        r.2@.len() == spec_parse_dump(content@).2.len(),
        forall|i: int| 0 <= i < r.2@.len() ==> #[trigger] r.2@[i]@ == spec_parse_dump(content@).2[i],
{
    let v = str_chars(content);
    let ranges = line_ranges(&v);
    let ghost ls = lines(content@);
    let (a0, b0) = ranges[0];
    let mut line0: Vec<char> = Vec::new();
    let mut j: usize = a0;
    while j < b0
        invariant
            a0 <= j <= b0 <= v@.len(),
            line0@ == v@.subrange(a0 as int, j as int),
        decreases b0 - j,
    {
        line0.push(v[j]);
        assert(v@.subrange(a0 as int, j + 1) =~= v@.subrange(a0 as int, j as int).push(v@[j as int]));
        j = j + 1;
    }
    assert(line0@ == ls[0]);
    let ghost body = line0@.skip(7);
    let k = index_of(&line0, ',', 7);
    proof {
        lemma_index_shift(line0@, ',', 7, 0);
        lemma_index_from_bounds(line0@, ',', 7);
        assert(line0@.subrange(7, k as int) =~= body.take(k - 7));
    }
    let row = parse_u16_range(&line0, 7, k);
    let ghost rest = body.skip(k - 7 + 1);
    let k2 = index_of(&line0, ',', k + 1);
    proof {
        assert(rest =~= line0@.skip(k + 1));
        lemma_index_shift(line0@, ',', k + 1, 0);
        lemma_index_from_bounds(line0@, ',', k + 1);
        assert(line0@.subrange(k + 1, k2 as int) =~= rest.take(k2 - k - 1));
    }
    let col = parse_u16_range(&line0, k + 1, k2);
    let mut rows: Vec<String> = Vec::new();
    let mut i: usize = 2;
    while i < ranges.len()
        invariant
            2 <= i <= ranges@.len() == ls.len(),
            ls == lines(content@),
            v@ == content@,
            forall|j: int|
                #![trigger ranges@[j]]
                0 <= j < ranges@.len() ==> ranges@[j].0 <= ranges@[j].1 <= v@.len() && ls[j]
                    == v@.subrange(ranges@[j].0 as int, ranges@[j].1 as int),
            rows@.len() == i - 2,
            forall|j: int| 0 <= j < rows@.len() ==> #[trigger] rows@[j]@ == ls[j + 2],
        decreases ranges.len() - i,
    {
        let (a, b) = ranges[i];
        rows.push(chars_to_string(&v, a, b));
        i = i + 1;
    }
    (row, col, rows)
}

/// The row lines of a dump, without the cursor.
pub fn parse_dump_rows(content: &str) -> (rows: Vec<String>)
    requires
        dump_wf(content@),
    ensures
        rows@.len() == spec_parse_dump(content@).2.len(),
        forall|i: int| 0 <= i < rows@.len() ==> #[trigger] rows@[i]@ == spec_parse_dump(content@).2[i],
{
    let (_, _, rows) = parse_dump(content);
    rows
}


/// A line that reads back as itself: no newline in it, and no carriage
/// return at its end.
pub open spec fn plain_line(l: Seq<char>) -> bool {
    &&& forall|j: int| 0 <= j < l.len() ==> #[trigger] l[j] != '\n'
    &&& l.len() > 0 ==> l.last() != '\r'
}

/// The lines `rows[i..]`, each ended by a newline.
pub open spec fn lines_text(rows: Seq<Seq<char>>, i: int) -> Seq<char>
    decreases rows.len() - i,
{
    if i < 0 || i >= rows.len() {
        seq![]
    } else {
        rows[i].push('\n') + lines_text(rows, i + 1)
    }
}

/// A dump as the app writes it: the cursor line, the `grid:` line, then one
/// line per row.
pub open spec fn dump_text(cursor: (u16, u16), rows: Seq<Seq<char>>) -> Seq<char> {
    cursor_line(cursor).push('\n') + grid_tag().push('\n') + lines_text(rows, 0)
}

/// The lines of the rows part of a dump are the rows.
proof fn lemma_lines_text(rows: Seq<Seq<char>>, i: int)
    requires
        0 <= i <= rows.len(),
        forall|k: int| 0 <= k < rows.len() ==> plain_line(#[trigger] rows[k]),
    ensures
        lines(lines_text(rows, i)) == rows.skip(i),
    decreases rows.len() - i,
{
    if i < rows.len() {
        lemma_lines_text(rows, i + 1);
        assert(plain_line(rows[i]));
        lemma_lines_cons(rows[i], lines_text(rows, i + 1));
        assert(seq![rows[i]] + rows.skip(i + 1) =~= rows.skip(i));
    } else {
        assert(lines(lines_text(rows, i)) =~= rows.skip(i));
    }
}

proof fn lemma_trim_prefix(s: Seq<char>)
    ensures
        trim_blank_end(s).len() <= s.len(),
        forall|i: int| 0 <= i < trim_blank_end(s).len() ==> #[trigger] trim_blank_end(s)[i] == s[i],
    decreases s.len(),
{
    if s.len() > 0 && is_blank(s.last()) {
        lemma_trim_prefix(s.drop_last());
    }
}

/// A row line holds no newline: its characters come from the cells, the
/// preedit, or padding.
proof fn lemma_row_line_no_newline(cells: Seq<Vec<Cell>>, r: int, cursor: (u16, u16), pre: Seq<char>)
    requires
        0 <= r < cells.len(),
        forall|j: int| 0 <= j < cells[r]@.len() ==> #[trigger] cells[r]@[j].character != '\n',
        forall|i: int| 0 <= i < pre.len() ==> #[trigger] pre[i] != '\n',
    ensures
        forall|j: int| 0 <= j < row_line(cells, r, cursor, pre).len() ==> #[trigger] row_line(
            cells,
            r,
            cursor,
            pre,
        )[j] != '\n',
{
    let chars = cell_chars(cells[r]@);
    let x = if r == cursor.0 && pre.len() > 0 {
        overlay(chars, cursor.1 as int, pre)
    } else {
        chars
    };
    assert forall|j: int| 0 <= j < x.len() implies #[trigger] x[j] != '\n' by {
        if r == cursor.0 && pre.len() > 0 {
            if cursor.1 <= j < cursor.1 + pre.len() {
                assert(pre[j - cursor.1] != '\n');
            } else if j < chars.len() {
                assert(cells[r]@[j].character != '\n');
            }
        } else {
            assert(cells[r]@[j].character != '\n');
        }
    }
    lemma_trim_prefix(x);
    assert(row_line(cells, r, cursor, pre) == trim_blank_end(x));
}

/// The rows part of a grid dump is its row lines, each ended by a newline.
proof fn lemma_dump_rows_text(cells: Seq<Vec<Cell>>, i: int, cursor: (u16, u16), pre: Seq<char>)
    requires
        0 <= i <= cells.len(),
    ensures
        dump_rows_from(cells, i, cursor, pre) == lines_text(
            Seq::new(cells.len(), |r: int| row_line(cells, r, cursor, pre)),
            i,
        ),
    decreases cells.len() - i,
{
    if i < cells.len() {
        lemma_dump_rows_text(cells, i + 1, cursor, pre);
    }
}

/// The decimal form of `n` is a non-empty run of digits worth `n`.
proof fn lemma_decimal_digits(n: nat)
    ensures
        decimal(n).len() >= 1,
        forall|i: int| 0 <= i < decimal(n).len() ==> is_digit_char(#[trigger] decimal(n)[i]),
        dec_value(decimal(n)) == n,
    decreases n,
{
    if n < 10 {
        assert(digit_char(n) as nat == 48 + n);
        assert(decimal(n).drop_last() =~= Seq::<char>::empty());
        assert(dec_value(Seq::<char>::empty()) == 0);
        assert(dec_value(decimal(n)) == n);
    } else {
        lemma_decimal_digits(n / 10);
        assert(digit_char(n % 10) as nat == 48 + n % 10);
        assert(decimal(n).drop_last() =~= decimal(n / 10));
        assert(decimal(n).last() == digit_char(n % 10));
        assert(dec_value(decimal(n)) == dec_value(decimal(n / 10)) * 10 + (n % 10));
        assert((n / 10) * 10 + n % 10 == n);
        assert(dec_value(decimal(n)) == n);
    }
}

proof fn lemma_decimal_field(n: u16)
    ensures
        parses_u16(decimal(n as nat)),
        u16_value(decimal(n as nat)) == n,
        forall|i: int| 0 <= i < decimal(n as nat).len() ==> #[trigger] decimal(n as nat)[i] != ','
            && decimal(n as nat)[i] != '\n' && decimal(n as nat)[i] != '\r',
{
    lemma_decimal_digits(n as nat);
    let d = decimal(n as nat);
    assert(is_digit_char(d[0]));
    assert(plus_body(d) == d);
    assert forall|i: int| 0 <= i < d.len() implies #[trigger] d[i] != ',' && d[i] != '\n' && d[i] != '\r' by {
        assert(is_digit_char(d[i]));
    }
}

/// Reading a dump back gives the cursor it was written with and its rows,
/// one per line, as long as no row holds a newline or ends in a carriage
/// return.
pub proof fn lemma_parse_dump_text(cursor: (u16, u16), rows: Seq<Seq<char>>)
    requires
        forall|k: int| 0 <= k < rows.len() ==> plain_line(#[trigger] rows[k]),
    ensures
        dump_wf(dump_text(cursor, rows)),
        spec_parse_dump(dump_text(cursor, rows)) == (cursor.0, cursor.1, rows),
{
    let rows_part = lines_text(rows, 0);
    let line0 = cursor_line(cursor);
    let dr = decimal(cursor.0 as nat);
    let dc = decimal(cursor.1 as nat);
    lemma_decimal_field(cursor.0);
    lemma_decimal_field(cursor.1);
    // The cursor line: no line break, ends with a digit.
    assert forall|j: int| 0 <= j < line0.len() implies #[trigger] line0[j] != '\n' by {
        if j >= 7 + dr.len() + 1 {
            assert(line0[j] == dc[j - 8 - dr.len()]);
        } else if j >= 7 && j < 7 + dr.len() {
            assert(line0[j] == dr[j - 7]);
        }
    }
    assert(line0.last() == dc.last());
    lemma_lines_text(rows, 0);
    assert(rows.skip(0) =~= rows);
    lemma_lines_cons(grid_tag(), rows_part);
    assert(dump_text(cursor, rows) =~= line0.push('\n') + (grid_tag().push('\n') + rows_part));
    lemma_lines_cons(line0, grid_tag().push('\n') + rows_part);
    let ls = lines(dump_text(cursor, rows));
    assert(ls[0] == line0);
    assert(ls[1] == grid_tag());
    assert(ls.skip(2) =~= rows);
    // The two fields of the cursor line.
    let body = line0.skip(7);
    assert(body =~= dr + seq![','] + dc);
    lemma_index_at(body, ',', 0, dr.len() as int);
    assert(body.take(dr.len() as int) =~= dr);
    let rest = body.skip(dr.len() as int + 1);
    assert(rest =~= dc);
    lemma_index_at(rest, ',', 0, rest.len() as int);
    assert(rest.take(rest.len() as int) =~= dc);
    assert(cursor_tag().is_prefix_of(line0)) by {
        assert(line0.take(7) =~= cursor_tag());
    }
}

/// Reading back what the app dumps gives the cursor it was written with and
/// one line per screen row, as long as no cell and no preedit character is
/// a newline and no row's line ends in a carriage return.
pub proof fn lemma_dump_round_trip(cells: Seq<Vec<Cell>>, cursor: (u16, u16), pre: Seq<char>)
    requires
        forall|r: int, j: int|
            0 <= r < cells.len() && 0 <= j < cells[r]@.len() ==> #[trigger] cells[r]@[j].character != '\n',
        forall|i: int| 0 <= i < pre.len() ==> #[trigger] pre[i] != '\n',
        forall|r: int|
            0 <= r < cells.len() ==> !(#[trigger] row_line(cells, r, cursor, pre).len() > 0
                && row_line(cells, r, cursor, pre).last() == '\r'),
    ensures
        dump_wf(spec_grid_dump(cells, cursor, pre)),
        spec_parse_dump(spec_grid_dump(cells, cursor, pre)) == (
            cursor.0,
            cursor.1,
            Seq::new(cells.len(), |r: int| row_line(cells, r, cursor, pre)),
        ),
{
    let rows = Seq::new(cells.len(), |r: int| row_line(cells, r, cursor, pre));
    assert forall|k: int| 0 <= k < rows.len() implies plain_line(#[trigger] rows[k]) by {
        assert forall|j: int| 0 <= j < cells[k]@.len() implies #[trigger] cells[k]@[j].character != '\n' by {
            assert(cells[k]@[j].character != '\n');
        }
        lemma_row_line_no_newline(cells, k, cursor, pre);
        assert(rows[k] == row_line(cells, k, cursor, pre));
        assert(!(row_line(cells, k, cursor, pre).len() > 0 && row_line(cells, k, cursor, pre).last() == '\r'));
    }
    lemma_dump_rows_text(cells, 0, cursor, pre);
    assert(spec_grid_dump(cells, cursor, pre) == dump_text(cursor, rows));
    lemma_parse_dump_text(cursor, rows);
}

} // verus!
