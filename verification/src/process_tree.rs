//! Whether a program runs below a process: the rows of a process listing
//! (`ps -eo pid,ppid,comm=`), and a search of the process tree they give.
use vstd::prelude::*;

use crate::dump_reader::{dec_value, is_digit_char, lemma_dec_value_prefix, line_ranges, lines, plus_body};
use crate::grid_dump::str_chars;
use crate::text::{is_whitespace, spec_is_whitespace};

verus! {

/// A row of a process listing: process id, parent's id, command.
pub type ProcRow = (u32, u32, Seq<char>);

/// The first index at or after `i` that holds white space (or the length).
pub open spec fn word_end(l: Seq<char>, i: int) -> int
    decreases l.len() - i,
{
    if i < 0 {
        0
    } else if i >= l.len() || spec_is_whitespace(l[i]) {
        i
    } else {
        word_end(l, i + 1)
    }
}

/// The end of the word at `i` lies between `i` and the end, after only
/// non-space characters.
pub proof fn lemma_word_end(l: Seq<char>, i: int)
    requires
        0 <= i <= l.len(),
    ensures
        i <= word_end(l, i) <= l.len(),
        forall|j: int| i <= j < word_end(l, i) ==> !spec_is_whitespace(#[trigger] l[j]),
        word_end(l, i) < l.len() ==> spec_is_whitespace(l[word_end(l, i)]),
    decreases l.len() - i,
{
    if i < l.len() && !spec_is_whitespace(l[i]) {
        lemma_word_end(l, i + 1);
    }
}

/// The words of `l[i..]`, as `str::split_whitespace` gives them.
pub open spec fn words_from(l: Seq<char>, i: int) -> Seq<Seq<char>>
    decreases l.len() - i,
{
    if i < 0 || i >= l.len() {
        seq![]
    } else if spec_is_whitespace(l[i]) {
        words_from(l, i + 1)
    } else {
        let e = word_end(l, i);
        proof {
            lemma_word_end(l, i + 1);
        }
        seq![l.subrange(i, e)] + words_from(l, e)
    }
}

/// The words joined with single spaces, as `join(" ")` does.
pub open spec fn join_words(ws: Seq<Seq<char>>) -> Seq<char>
    decreases ws.len(),
{
    if ws.len() == 0 {
        seq![]
    } else if ws.len() == 1 {
        ws[0]
    } else {
        join_words(ws.drop_last()) + seq![' '] + ws.last()
    }
}

/// What `str::parse::<u32>` accepts: an optional `+`, then one or more
/// digits whose value fits.
pub open spec fn parses_u32(s: Seq<char>) -> bool {
    let b = plus_body(s);
    &&& b.len() > 0
    &&& forall|i: int| 0 <= i < b.len() ==> is_digit_char(#[trigger] b[i])
    &&& dec_value(b) <= u32::MAX
}

/// The row a line of the listing gives: at least three words, the first two
/// numbers; the command is the rest of the words, joined by spaces.
pub open spec fn ps_row(line: Seq<char>) -> Option<ProcRow> {
    let w = words_from(line, 0);
    if w.len() >= 3 && parses_u32(w[0]) && parses_u32(w[1]) {
        Some(
            (
                dec_value(plus_body(w[0])) as u32,
                dec_value(plus_body(w[1])) as u32,
                join_words(w.skip(2)),
            ),
        )
    } else {
        None
    }
}

/// The rows of the listing's lines, lines that give none skipped.
pub open spec fn rows_of_lines(ls: Seq<Seq<char>>) -> Seq<ProcRow>
    decreases ls.len(),
{
    if ls.len() == 0 {
        seq![]
    } else {
        let prev = rows_of_lines(ls.drop_last());
        match ps_row(ls.last()) {
            Some(r) => prev.push(r),
            None => prev,
        }
    }
}

/// The rows of a process listing.
pub open spec fn ps_rows(text: Seq<char>) -> Seq<ProcRow> {
    rows_of_lines(lines(text))
}

/// `needle` occurs in `hay` at `i`.
pub open spec fn occurs_at(hay: Seq<char>, needle: Seq<char>, i: int) -> bool {
    0 <= i && i + needle.len() <= hay.len() && hay.subrange(i, i + needle.len()) == needle
}

/// `hay` contains `needle`, as `str::contains` tests it.
pub open spec fn spec_contains(hay: Seq<char>, needle: Seq<char>) -> bool {
    exists|i: int| occurs_at(hay, needle, i)
}

/// Row indices `c` leading down from `root`: the first row's parent is
/// `root`, and each next row's parent is the row before.
pub open spec fn is_chain(rows: Seq<ProcRow>, root: u32, c: Seq<int>) -> bool {
    &&& c.len() > 0
    &&& forall|j: int| 0 <= j < c.len() ==> 0 <= #[trigger] c[j] < rows.len()
    &&& rows[c[0]].1 == root
    &&& forall|j: int| 0 <= j < c.len() - 1 ==> rows[#[trigger] c[j + 1]].1 == rows[c[j]].0
}

/// Row `i` lies below `root`.
pub open spec fn reached(rows: Seq<ProcRow>, root: u32, i: int) -> bool {
    exists|c: Seq<int>| is_chain(rows, root, c) && c.last() == i
}

/// Some row below `root` runs a command whose name contains `name`.
pub open spec fn spec_has_descendant(rows: Seq<ProcRow>, root: u32, name: Seq<char>) -> bool {
    exists|c: Seq<int>| is_chain(rows, root, c) && spec_contains(rows[c.last()].2, name)
}

/// The rows' values.
pub open spec fn rows_view(v: Seq<(u32, u32, Vec<char>)>) -> Seq<ProcRow> {
    Seq::new(v.len(), |i: int| (v[i].0, v[i].1, v[i].2@))
}

/// The word ranges of `l`.
fn word_ranges(l: &Vec<char>) -> (out: Vec<(usize, usize)>)
    ensures
        out@.len() == words_from(l@, 0).len(),
        forall|k: int|
            #![trigger out@[k]]
            0 <= k < out@.len() ==> out@[k].0 <= out@[k].1 <= l@.len() && words_from(l@, 0)[k]
                == l@.subrange(out@[k].0 as int, out@[k].1 as int),
{
    let mut out: Vec<(usize, usize)> = Vec::new();
    let ghost mut done: Seq<Seq<char>> = seq![];
    let mut pos: usize = 0;
    assert(done + words_from(l@, 0) =~= words_from(l@, 0));
    while pos < l.len()
        invariant
            pos <= l.len(),
            out@.len() == done.len(),
            forall|k: int|
                #![trigger out@[k]]
                0 <= k < out@.len() ==> out@[k].0 <= out@[k].1 <= l@.len() && done[k] == l@.subrange(
                    out@[k].0 as int,
                    out@[k].1 as int,
                ),
            done + words_from(l@, pos as int) == words_from(l@, 0),
        decreases l.len() - pos,
    {
        if is_whitespace(l[pos]) {
            pos = pos + 1;
        } else {
            let mut e = pos + 1;
            while e < l.len() && !is_whitespace(l[e])
                invariant
                    pos < e <= l.len(),
                    word_end(l@, e as int) == word_end(l@, pos as int),
                decreases l.len() - e,
            {
                e = e + 1;
            }
            proof {
                lemma_word_end(l@, pos as int);
                assert(words_from(l@, pos as int) == seq![l@.subrange(pos as int, e as int)]
                    + words_from(l@, e as int));
                done = done.push(l@.subrange(pos as int, e as int));
                assert(done + words_from(l@, e as int) =~= words_from(l@, 0));
            }
            out.push((pos, e));
            pos = e;
        }
    }
    assert(done =~= words_from(l@, 0));
    out
}

/// `l[from..to]` read as a `u32`, if it reads as one.
fn u32_in(l: &Vec<char>, from: usize, to: usize) -> (r: Option<u32>)
    requires
        from <= to <= l.len(),
    ensures
        r == (if parses_u32(l@.subrange(from as int, to as int)) {
            Some(dec_value(plus_body(l@.subrange(from as int, to as int))) as u32)
        } else {
            None
        }),
{
    let ghost s = l@.subrange(from as int, to as int);
    let start = if from < to && l[from] == '+' {
        from + 1
    } else {
        from
    };
    let ghost b = l@.subrange(start as int, to as int);
    assert(b =~= plus_body(s));
    if start == to {
        return None;
    }
    let mut acc: u64 = 0;
    let mut i = start;
    while i < to
        invariant
            start <= i <= to <= l.len(),
            b == l@.subrange(start as int, to as int),
            s == l@.subrange(from as int, to as int),
            b == plus_body(s),
            b.len() > 0,
            forall|j: int| 0 <= j < i - start ==> is_digit_char(#[trigger] b[j]),
            acc == dec_value(b.take(i - start)),
            acc <= u32::MAX,
        decreases to - i,
    {
        let c = l[i];
        assert(b[i - start] == c);
        if !('0' <= c && c <= '9') {
            assert(!is_digit_char(b[i - start]));
            return None;
        }
        proof {
            assert(b.take(i - start + 1).drop_last() =~= b.take(i - start));
        }
        acc = acc * 10 + (c as u64 - 48);
        if acc > 0xffff_ffff {
            proof {
                lemma_dec_value_prefix(b, i - start + 1);
            }
            return None;
        }
        i = i + 1;
    }
    assert(b.take(to - start) =~= b);
    Some(acc as u32)
}

/// The characters `l[from..to]`.
fn copy_range(l: &Vec<char>, from: usize, to: usize) -> (out: Vec<char>)
    requires
        from <= to <= l.len(),
    ensures
        out@ == l@.subrange(from as int, to as int),
{
    let mut out: Vec<char> = Vec::new();
    let mut j = from;
    while j < to
        invariant
            from <= j <= to <= l.len(),
            out@ == l@.subrange(from as int, j as int),
        decreases to - j,
    {
        out.push(l[j]);
        assert(l@.subrange(from as int, j + 1) =~= l@.subrange(from as int, j as int).push(l@[j as int]));
        j = j + 1;
    }
    out
}

/// The row a line of the listing gives, if any.
fn row_of_line(l: &Vec<char>) -> (r: Option<(u32, u32, Vec<char>)>)
    ensures
        match r {
            Some(x) => ps_row(l@) == Some((x.0, x.1, x.2@)),
            None => ps_row(l@) is None,
        },
{
    let ws = word_ranges(l);
    let ghost w = words_from(l@, 0);
    if ws.len() < 3 {
        return None;
    }
    let (a0, b0) = ws[0];
    let (a1, b1) = ws[1];
    let pid = match u32_in(l, a0, b0) {
        Some(p) => p,
        None => return None,
    };
    let ppid = match u32_in(l, a1, b1) {
        Some(p) => p,
        None => return None,
    };
    let mut comm: Vec<char> = Vec::new();
    let mut k: usize = 2;
    while k < ws.len()
        invariant
            2 <= k <= ws@.len() == w.len(),
            w == words_from(l@, 0),
            forall|m: int|
                #![trigger ws@[m]]
                0 <= m < ws@.len() ==> ws@[m].0 <= ws@[m].1 <= l@.len() && w[m] == l@.subrange(
                    ws@[m].0 as int,
                    ws@[m].1 as int,
                ),
            comm@ == join_words(w.skip(2).take(k - 2)),
        decreases ws.len() - k,
    {
        let (a, b) = ws[k];
        let word = copy_range(l, a, b);
        let ghost before = comm@;
        if k > 2 {
            comm.push(' ');
        }
        let mut j: usize = 0;
        while j < word.len()
            invariant
                j <= word.len(),
                comm@ == (if k > 2 { before + seq![' '] } else { before }) + word@.take(j as int),
            decreases word.len() - j,
        {
            comm.push(word[j]);
            assert(word@.take(j + 1) =~= word@.take(j as int).push(word@[j as int]));
            j = j + 1;
        }
        proof {
            let t = w.skip(2).take(k + 1 - 2);
            assert(t.drop_last() =~= w.skip(2).take(k - 2));
            assert(t.last() == w[k as int]);
            assert(word@.take(word@.len() as int) =~= word@);
            if k == 2 {
                assert(t.len() == 1);
                assert(before =~= Seq::<char>::empty());
                assert(comm@ =~= t[0]);
            }
        }
        k = k + 1;
    }
    assert(w.skip(2).take(k - 2) =~= w.skip(2));
    Some((pid, ppid, comm))
}

/// The rows of the process listing `text`.
pub fn ps_rows_of(text: &str) -> (rows: Vec<(u32, u32, Vec<char>)>)
    ensures
        rows_view(rows@) == ps_rows(text@),
{
    let v = str_chars(text);
    let ranges = line_ranges(&v);
    let ghost ls = lines(v@);
    let mut rows: Vec<(u32, u32, Vec<char>)> = Vec::new();
    let mut i: usize = 0;
    while i < ranges.len()
        invariant
            i <= ranges@.len() == ls.len(),
            ls == lines(v@),
            v@ == text@,
            forall|j: int|
                #![trigger ranges@[j]]
                0 <= j < ranges@.len() ==> ranges@[j].0 <= ranges@[j].1 <= v@.len() && ls[j]
                    == v@.subrange(ranges@[j].0 as int, ranges@[j].1 as int),
            rows_view(rows@) == rows_of_lines(ls.take(i as int)),
        decreases ranges.len() - i,
    {
        let (a, b) = ranges[i];
        let line = copy_range(&v, a, b);
        let r = row_of_line(&line);
        proof {
            assert(ls.take(i + 1).drop_last() =~= ls.take(i as int));
            assert(ls.take(i + 1).last() == line@);
        }
        match r {
            Some(x) => {
                let ghost prev = rows@;
                rows.push(x);
                proof {
                    assert(rows_view(rows@) =~= rows_view(prev).push((x.0, x.1, x.2@)));
                }
            },
            None => {},
        }
        i = i + 1;
    }
    assert(ls.take(ranges.len() as int) =~= ls);
    rows
}

/// Whether `needle` occurs in `hay`.
fn contains_chars(hay: &Vec<char>, needle: &Vec<char>) -> (b: bool)
    ensures
        b == spec_contains(hay@, needle@),
{
    if needle.len() > hay.len() {
        assert(!spec_contains(hay@, needle@));
        return false;
    }
    let last = hay.len() - needle.len();
    let mut i: usize = 0;
    while i <= last
        invariant
            last == hay.len() - needle.len(),
            i <= last + 1,
            forall|k: int| 0 <= k < i ==> !occurs_at(hay@, needle@, k),
        decreases last + 1 - i,
    {
        let mut j: usize = 0;
        while j < needle.len() && hay[i + j] == needle[j]
            invariant
                i <= last,
                last == hay.len() - needle.len(),
                j <= needle.len(),
                forall|m: int| 0 <= m < j ==> hay@[i + m] == needle@[m],
            decreases needle.len() - j,
        {
            j = j + 1;
        }
        if j == needle.len() {
            assert(hay@.subrange(i as int, i + needle.len()) =~= needle@);
            assert(occurs_at(hay@, needle@, i as int));
            return true;
        }
        assert(!occurs_at(hay@, needle@, i as int)) by {
            if occurs_at(hay@, needle@, i as int) {
                assert(hay@.subrange(i as int, i + needle.len())[j as int] == needle@[j as int]);
            }
        }
        i = i + 1;
    }
    assert forall|k: int| !occurs_at(hay@, needle@, k) by {
        if 0 <= k < i {
        }
    }
    false
}

/// Row `p` is `root` or the process id of a marked row.
pub open spec fn spec_below(rows: Seq<ProcRow>, marked: Seq<bool>, root: u32, p: u32) -> bool {
    p == root || exists|m: int| 0 <= m < rows.len() && marked[m] && rows[m].0 == p
}

/// How many entries are true.
pub open spec fn count_true(s: Seq<bool>) -> nat
    decreases s.len(),
{
    if s.len() == 0 {
        0
    } else {
        count_true(s.drop_last()) + if s.last() { 1nat } else { 0nat }
    }
}

proof fn lemma_count_true(s: Seq<bool>, i: int)
    requires
        0 <= i < s.len(),
        !s[i],
    ensures
        count_true(s) <= s.len(),
        count_true(s.update(i, true)) == count_true(s) + 1,
        count_true(s.update(i, true)) <= s.len(),
    decreases s.len(),
{
    lemma_count_bound(s);
    if i < s.len() - 1 {
        lemma_count_true(s.drop_last(), i);
        assert(s.update(i, true).drop_last() =~= s.drop_last().update(i, true));
    } else {
        assert(s.update(i, true).drop_last() =~= s.drop_last());
    }
    lemma_count_bound(s.update(i, true));
}

proof fn lemma_count_bound(s: Seq<bool>)
    ensures
        count_true(s) <= s.len(),
    decreases s.len(),
{
    if s.len() > 0 {
        lemma_count_bound(s.drop_last());
    }
}

fn below(rows: &Vec<(u32, u32, Vec<char>)>, marked: &Vec<bool>, root: u32, p: u32) -> (b: bool)
    requires
        marked.len() == rows.len(),
    ensures
        b == spec_below(rows_view(rows@), marked@, root, p),
{
    if p == root {
        return true;
    }
    let mut m: usize = 0;
    while m < rows.len()
        invariant
            m <= rows.len() == marked.len(),
            forall|k: int| 0 <= k < m ==> !(marked@[k] && rows@[k].0 == p),
        decreases rows.len() - m,
    {
        if marked[m] && rows[m].0 == p {
            assert(rows_view(rows@)[m as int].0 == p);
            return true;
        }
        m = m + 1;
    }
    assert forall|k: int| 0 <= k < rows.len() && marked@[k] implies rows_view(rows@)[k].0 != p by {
        assert(rows_view(rows@)[k].0 == rows@[k].0);
    }
    false
}

/// A row whose parent is below `root` is reached, through the marked row
/// that is its parent.
proof fn lemma_reach_child(rows: Seq<ProcRow>, marked: Seq<bool>, root: u32, i: int)
    requires
        0 <= i < rows.len(),
        marked.len() == rows.len(),
        forall|m: int| 0 <= m < rows.len() && #[trigger] marked[m] ==> reached(rows, root, m),
        spec_below(rows, marked, root, rows[i].1),
    ensures
        reached(rows, root, i),
{
    if rows[i].1 == root {
        let c = seq![i];
        assert(is_chain(rows, root, c));
        assert(c.last() == i);
        assert(reached(rows, root, i));
    } else {
        let m = choose|m: int| 0 <= m < rows.len() && marked[m] && rows[m].0 == rows[i].1;
        assert(marked[m]);
        let c0 = choose|c: Seq<int>| is_chain(rows, root, c) && c.last() == m;
        let c = c0.push(i);
        assert forall|j: int| 0 <= j < c.len() implies 0 <= #[trigger] c[j] < rows.len() by {
            if j < c0.len() {
                assert(c[j] == c0[j]);
            }
        }
        assert forall|j: int| 0 <= j < c.len() - 1 implies rows[#[trigger] c[j + 1]].1 == rows[c[j]].0 by {
            assert(c[j] == c0[j]);
            if j < c0.len() - 1 {
                assert(c[j + 1] == c0[j + 1]);
            } else {
                assert(c[j] == c0.last());
            }
        }
        assert(c[0] == c0[0]);
        assert(is_chain(rows, root, c));
        assert(c.last() == i);
        assert(reached(rows, root, i));
    }
}

/// With every row either marked or not below the root, every row along a
/// chain from the root is marked.
proof fn lemma_closed_chain(rows: Seq<ProcRow>, marked: Seq<bool>, root: u32, c: Seq<int>)
    requires
        marked.len() == rows.len(),
        forall|j: int| 0 <= j < rows.len() ==> #[trigger] marked[j] || !spec_below(rows, marked, root, rows[j].1),
        is_chain(rows, root, c),
    ensures
        marked[c.last()],
    decreases c.len(),
{
    if c.len() == 1 {
        assert(marked[c[0]] || !spec_below(rows, marked, root, rows[c[0]].1));
    } else {
        let c0 = c.drop_last();
        assert forall|j: int| 0 <= j < c0.len() - 1 implies rows[#[trigger] c0[j + 1]].1 == rows[c0[j]].0 by {
            assert(c[j + 1] == c0[j + 1]);
        }
        lemma_closed_chain(rows, marked, root, c0);
        let p = c0.last();
        let i = c.last();
        let k = c.len() - 2;
        assert(rows[c[k + 1]].1 == rows[c[k]].0);
        assert(c[k] == p);
        assert(spec_below(rows, marked, root, rows[i].1));
        assert(marked[i] || !spec_below(rows, marked, root, rows[i].1));
    }
}

/// Whether a process below `root` (at any depth) runs a command whose name
/// contains `name`, in the rows of the process listing `ps_output`.
pub fn has_descendant_named_in(ps_output: &str, root: u32, name: &str) -> (b: bool)
    ensures
        b == spec_has_descendant(ps_rows(ps_output@), root, name@),
{
    let rows = ps_rows_of(ps_output);
    let needle = str_chars(name);
    let ghost r = rows_view(rows@);
    let n = rows.len();
    let mut marked: Vec<bool> = Vec::new();
    while marked.len() < n
        invariant
            marked.len() <= n,
            forall|k: int| 0 <= k < marked.len() ==> !marked@[k],
        decreases n - marked.len(),
    {
        marked.push(false);
    }
    let mut count: usize = 0;
    proof {
        assert(marked@.take(0) =~= Seq::<bool>::empty());
        lemma_count_zero(marked@);
    }
    loop
        invariant
            n == rows.len(),
            r == rows_view(rows@),
            r == ps_rows(ps_output@),
            needle@ == name@,
            marked.len() == n,
            count == count_true(marked@),
            count <= n,
            forall|m: int| 0 <= m < n && #[trigger] marked@[m] ==> reached(r, root, m) && !spec_contains(
                r[m].2,
                needle@,
            ),
        decreases n - count,
    {
        let ghost start = marked@;
        let ghost count_start = count;
        let mut changed = false;
        let mut i: usize = 0;
        while i < n
            invariant
                n == rows.len(),
                i <= n,
                r == rows_view(rows@),
                r == ps_rows(ps_output@),
                needle@ == name@,
                marked.len() == n,
                count == count_true(marked@),
                count <= n,
                count >= count_start,
                changed ==> count > count_start,
                !changed ==> marked@ == start,
                !changed ==> forall|j: int|
                    0 <= j < i ==> #[trigger] marked@[j] || !spec_below(r, marked@, root, r[j].1),
                forall|m: int| 0 <= m < n && #[trigger] marked@[m] ==> reached(r, root, m) && !spec_contains(
                    r[m].2,
                    needle@,
                ),
            decreases n - i,
        {
            if !marked[i] && below(&rows, &marked, root, rows[i].1) {
                proof {
                    assert(r[i as int] == (rows@[i as int].0, rows@[i as int].1, rows@[i as int].2@));
                    lemma_reach_child(r, marked@, root, i as int);
                }
                if contains_chars(&rows[i].2, &needle) {
                    proof {
                        assert(reached(r, root, i as int));
                        let c = choose|c: Seq<int>| is_chain(r, root, c) && c.last() == i;
                        assert(rows@[i as int].2@ == r[i as int].2);
                        assert(spec_contains(r[i as int].2, name@));
                        assert(is_chain(r, root, c) && spec_contains(r[c.last()].2, name@));
                    }
                    return true;
                }
                proof {
                    lemma_count_true(marked@, i as int);
                }
                let ghost before = marked@;
                marked.set(i, true);
                proof {
                    assert forall|m: int| 0 <= m < n && #[trigger] marked@[m] implies reached(r, root, m)
                        && !spec_contains(r[m].2, needle@) by {
                        if m != i {
                            assert(before[m]);
                        }
                    }
                }
                assert(marked@ == before.update(i as int, true));
                count = count + 1;
                changed = true;
            }
            i = i + 1;
        }
        if !changed {
            proof {
                assert forall|c: Seq<int>| is_chain(r, root, c) implies !spec_contains(r[c.last()].2, name@) by {
                    lemma_closed_chain(r, marked@, root, c);
                }
            }
            return false;
        }
    }
}

proof fn lemma_count_zero(s: Seq<bool>)
    requires
        forall|k: int| 0 <= k < s.len() ==> !s[k],
    ensures
        count_true(s) == 0,
    decreases s.len(),
{
    if s.len() > 0 {
        lemma_count_zero(s.drop_last());
    }
}

} // verus!
