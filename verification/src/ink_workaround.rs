//! Where to draw the IME preedit while a program that draws its prompt with
//! React Ink runs in the terminal.
//!
//! Such a program leaves the terminal cursor somewhere else during
//! composition. While it runs, the preedit goes after the text committed
//! since the last Enter, on the prompt row (the one with `❯` between two
//! rules of `─`). Which program that is, by its process name, the caller
//! says.
use vstd::prelude::*;

use crate::text::{cell_width, char_width};
use crate::types::Cell;

verus! {

/// The column of the prompt's first input character.
pub const PROMPT_BASE_COL: u16 = 2;

/// Whether the program in the terminal is the Ink program, as last seen, and how
/// many columns of text were committed since the last Enter.
pub struct InkImeState {
    pub ink_app_cached: Option<bool>,
    pub committed_width: u16,
}

/// The columns that `s` takes, each character as a cell counts it.
pub open spec fn text_width(s: Seq<char>) -> nat
    decreases s.len(),
{
    if s.len() == 0 {
        0
    } else {
        text_width(s.drop_last()) + cell_width(s.last())
    }
}

proof fn lemma_text_width_prefix(s: Seq<char>, i: int, j: int)
    requires
        0 <= i <= j <= s.len(),
    ensures
        text_width(s.take(i)) <= text_width(s.take(j)),
    decreases j - i,
{
    if i < j {
        lemma_text_width_prefix(s, i, j - 1);
        assert(s.take(j).drop_last() =~= s.take(j - 1));
    }
}

/// A rule line of the prompt box: its first cell is `─`.
pub open spec fn is_separator(row: Seq<Cell>) -> bool {
    row.len() > 0 && row[0].character == '─'
}

/// A row that holds the prompt sign `❯`.
pub open spec fn has_prompt(row: Seq<Cell>) -> bool {
    exists|j: int| 0 <= j < row.len() && #[trigger] row[j].character == '❯'
}

/// The indices below `n` of the rule lines, in order.
pub open spec fn separator_rows(cells: Seq<Vec<Cell>>, n: int) -> Seq<int>
    decreases n,
{
    if n <= 0 {
        seq![]
    } else {
        let s = separator_rows(cells, n - 1);
        if is_separator(cells[n - 1]@) {
            s.push(n - 1)
        } else {
            s
        }
    }
}

/// The first row in `lo..hi` that holds the prompt sign.
pub open spec fn first_prompt_in(cells: Seq<Vec<Cell>>, lo: int, hi: int) -> Option<int>
    decreases hi - lo,
{
    if lo >= hi {
        None
    } else if has_prompt(cells[lo]@) {
        Some(lo)
    } else {
        first_prompt_in(cells, lo + 1, hi)
    }
}

/// Looking at the pairs of successive rule lines `seps[w - 1]`, `seps[w]`
/// for `w` below `k`, the last pair first: the first prompt row between
/// the two lines of the first pair that has one.
pub open spec fn prompt_in_windows(cells: Seq<Vec<Cell>>, seps: Seq<int>, k: int) -> Option<int>
    decreases k,
{
    if k < 2 {
        None
    } else {
        match first_prompt_in(cells, seps[k - 2] + 1, seps[k - 1]) {
            Some(r) => Some(r),
            None => prompt_in_windows(cells, seps, k - 1),
        }
    }
}

/// The prompt row: in the lowest pair of successive rule lines that encloses
/// a row with `❯`, the first such row.
pub open spec fn spec_prompt_row(cells: Seq<Vec<Cell>>) -> Option<int> {
    let seps = separator_rows(cells, cells.len() as int);
    prompt_in_windows(cells, seps, seps.len() as int)
}

proof fn lemma_separator_rows(cells: Seq<Vec<Cell>>, n: int)
    requires
        0 <= n <= cells.len(),
    ensures
        forall|k: int|
            0 <= k < separator_rows(cells, n).len() ==> 0 <= #[trigger] separator_rows(cells, n)[k]
                < n,
        forall|k: int, l: int|
            0 <= k < l < separator_rows(cells, n).len() ==> #[trigger] separator_rows(cells, n)[k]
                < #[trigger] separator_rows(cells, n)[l],
    decreases n,
{
    if n > 0 {
        lemma_separator_rows(cells, n - 1);
        let s = separator_rows(cells, n - 1);
        let t = separator_rows(cells, n);
        if is_separator(cells[n - 1]@) {
            assert(t == s.push(n - 1));
            assert forall|k: int| 0 <= k < t.len() implies 0 <= #[trigger] t[k] < n by {
                if k < s.len() {
                    assert(t[k] == s[k]);
                }
            }
            assert forall|k: int, l: int| 0 <= k < l < t.len() implies #[trigger] t[k] < #[trigger] t[l] by {
                assert(t[k] == s[k]);
                if l < s.len() {
                    assert(t[l] == s[l]);
                }
            }
        } else {
            assert(t == s);
        }
    }
}

fn is_separator_row(row: &Vec<Cell>) -> (b: bool)
    ensures
        b == is_separator(row@),
{
    row.len() > 0 && row[0].character == '─'
}

fn row_has_prompt(row: &Vec<Cell>) -> (b: bool)
    ensures
        b == has_prompt(row@),
{
    let mut j: usize = 0;
    while j < row.len()
        invariant
            j <= row.len(),
            forall|k: int| 0 <= k < j ==> row@[k].character != '❯',
        decreases row.len() - j,
    {
        if row[j].character == '❯' {
            assert(row@[j as int].character == '❯');
            return true;
        }
        j = j + 1;
    }
    false
}

fn separators(cells: &[Vec<Cell>]) -> (seps: Vec<usize>)
    ensures
        seps@.len() == separator_rows(cells@, cells@.len() as int).len(),
        forall|k: int|
            0 <= k < seps@.len() ==> seps@[k] as int == separator_rows(cells@, cells@.len() as int)[k],
{
    let mut seps: Vec<usize> = Vec::new();
    let mut i: usize = 0;
    while i < cells.len()
        invariant
            i <= cells@.len(),
            seps@.len() == separator_rows(cells@, i as int).len(),
            forall|k: int| 0 <= k < seps@.len() ==> seps@[k] as int == separator_rows(cells@, i as int)[k],
        decreases cells.len() - i,
    {
        if is_separator_row(&cells[i]) {
            seps.push(i);
        }
        i = i + 1;
    }
    seps
}

/// The first row in `lo..hi` that holds the prompt sign.
fn first_prompt(cells: &[Vec<Cell>], lo: usize, hi: usize) -> (r: Option<usize>)
    requires
        hi <= cells@.len(),
    ensures
        match r {
            Some(x) => first_prompt_in(cells@, lo as int, hi as int) == Some(x as int),
            None => first_prompt_in(cells@, lo as int, hi as int) is None,
        },
    decreases hi - lo,
{
    if lo >= hi {
        None
    } else if row_has_prompt(&cells[lo]) {
        Some(lo)
    } else {
        first_prompt(cells, lo + 1, hi)
    }
}

/// Finds the prompt row (`❯`) between two rule lines (`─`).
pub fn find_prompt_row(cells: &[Vec<Cell>]) -> (r: Option<usize>)
    ensures
        match r {
            Some(x) => spec_prompt_row(cells@) == Some(x as int),
            None => spec_prompt_row(cells@) is None,
        },
{
    let seps = separators(cells);
    let ghost gs = separator_rows(cells@, cells@.len() as int);
    proof {
        lemma_separator_rows(cells@, cells@.len() as int);
    }
    let mut k = seps.len();
    while k >= 2
        invariant
            k <= seps@.len() == gs.len(),
            gs == separator_rows(cells@, cells@.len() as int),
            forall|m: int| 0 <= m < seps@.len() ==> seps@[m] as int == gs[m],
            forall|m: int| 0 <= m < gs.len() ==> 0 <= #[trigger] gs[m] < cells@.len(),
            forall|m: int, l: int| 0 <= m < l < gs.len() ==> #[trigger] gs[m] < #[trigger] gs[l],
            prompt_in_windows(cells@, gs, gs.len() as int) == prompt_in_windows(cells@, gs, k as int),
        decreases k,
    {
        let top = seps[k - 2];
        let bottom = seps[k - 1];
        assert(gs[k - 2] < gs[k - 1]);
        let found = first_prompt(cells, top + 1, bottom);
        if let Some(row) = found {
            return Some(row);
        }
        k = k - 1;
    }
    None
}

impl InkImeState {
    pub open spec fn spec_is_active(&self) -> bool {
        self.ink_app_cached == Some(true)
    }

    pub fn new() -> (s: Self)
        ensures
            s.ink_app_cached is None,
            s.committed_width == 0,
    {
        InkImeState { ink_app_cached: None, committed_width: 0 }
    }

    /// The columns `text` takes, when that fits a `u16`.
    pub fn text_width_u16(text: &str) -> (r: Option<u16>)
        ensures
            r == (if text_width(text@) <= u16::MAX {
                Some(text_width(text@) as u16)
            } else {
                None
            }),
    {
        let n = text.unicode_len();
        let mut w: u32 = 0;
        let mut i: usize = 0;
        while i < n
            invariant
                i <= n == text@.len(),
                w == text_width(text@.take(i as int)),
                w <= u16::MAX,
            decreases n - i,
        {
            let c = text.get_char(i);
            let cw: u32 = match char_width(c) {
                Some(x) => x as u32,
                None => 1,
            };
            proof {
                assert(text@.take(i + 1).drop_last() =~= text@.take(i as int));
                lemma_text_width_prefix(text@, i + 1, text@.len() as int);
                assert(text@.take(text@.len() as int) =~= text@);
            }
            w = w + cw;
            if w > 0xFFFF {
                return None;
            }
            i = i + 1;
        }
        assert(text@.take(n as int) =~= text@);
        Some(w as u16)
    }

    /// Tracks the width of committed text, for the preedit's offset. Only
    /// while the Ink program runs; the width saturates.
    pub fn on_text_commit(&mut self, text: &str)
        requires
            old(self).spec_is_active() ==> text_width(text@) <= u16::MAX,
        ensures
            final(self).ink_app_cached == old(self).ink_app_cached,
            final(self).committed_width == (if old(self).spec_is_active() {
                if old(self).committed_width + text_width(text@) <= u16::MAX {
                    (old(self).committed_width + text_width(text@)) as u16
                } else {
                    u16::MAX
                }
            } else {
                old(self).committed_width
            }),
    {
        if self.is_active() {
            let w = match Self::text_width_u16(text) {
                Some(w) => w,
                None => {
                    return;
                },
            };
            self.committed_width = self.committed_width.saturating_add(w);
        }
    }

    /// `on_text_commit` where the text's width fits a `u16`; otherwise (a
    /// text of more than 65535 columns while the Ink program runs) nothing
    /// changes and the answer is false.
    pub fn try_on_text_commit(&mut self, text: &str) -> (done: bool)
        ensures
            done == (old(self).spec_is_active() ==> text_width(text@) <= u16::MAX),
            done ==> final(self).ink_app_cached == old(self).ink_app_cached && final(self).committed_width
                == (if old(self).spec_is_active() {
                if old(self).committed_width + text_width(text@) <= u16::MAX {
                    (old(self).committed_width + text_width(text@)) as u16
                } else {
                    u16::MAX
                }
            } else {
                old(self).committed_width
            }),
            !done ==> *final(self) == *old(self),
    {
        if self.is_active() && Self::text_width_u16(text).is_none() {
            return false;
        }
        self.on_text_commit(text);
        true
    }

    /// Records whether the terminal's process runs the program named
    /// `program`, as `is_running` finds it from the process id and that name; a
    /// process that does not resets the committed width. Without a process
    /// nothing changes.
    pub fn on_preedit_with<F: FnOnce(u32, &str) -> bool>(
        &mut self,
        child_pid: Option<u32>,
        program: &str,
        is_running: F,
    )
        requires
            forall|pid: u32| child_pid == Some(pid) ==> call_requires(is_running, (pid, program)),
        ensures
            child_pid is None ==> *final(self) == *old(self),
            child_pid is Some ==> exists|found: bool|
                {
                    &&& call_ensures(is_running, (child_pid->0, program), found)
                    &&& final(self).ink_app_cached == Some(found)
                    &&& final(self).committed_width == (if found {
                        old(self).committed_width
                    } else {
                        0
                    })
                },
    {
        if let Some(pid) = child_pid {
            let found = is_running(pid, program);
            self.ink_app_cached = Some(found);
            if !found {
                self.committed_width = 0;
            }
        }
    }

    /// Resets the committed width on Enter.
    pub fn on_enter(&mut self)
        ensures
            final(self).ink_app_cached == old(self).ink_app_cached,
            final(self).committed_width == 0,
    {
        self.committed_width = 0;
    }

    pub fn is_active(&self) -> (b: bool)
        ensures
            b == self.spec_is_active(),
    {
        match self.ink_app_cached {
            Some(b) => b,
            None => false,
        }
    }

    /// Where the preedit goes while the Ink program runs: `(row, col)` on the
    /// prompt row, after the committed text, wrapped at `cols`. `None` when
    /// no override is needed.
    pub fn preedit_pos(&self, cells: &[Vec<Cell>], cols: u16) -> (r: Option<(u16, u16)>)
        requires
            self.spec_is_active() && spec_prompt_row(cells@) is Some ==> {
                &&& cols > 0
                &&& self.committed_width + PROMPT_BASE_COL <= u16::MAX
                &&& (spec_prompt_row(cells@)->0 as u16) + (self.committed_width
                    + PROMPT_BASE_COL) / (cols as int) <= u16::MAX
            },
        ensures
            !self.spec_is_active() ==> r is None,
            self.spec_is_active() ==> match spec_prompt_row(cells@) {
                None => r is None,
                Some(row) => {
                    let col = self.committed_width + PROMPT_BASE_COL;
                    r == Some(
                        (
                            ((row as u16) + col / (cols as int)) as u16,
                            (col % (cols as int)) as u16,
                        ),
                    )
                },
            },
    {
        if !self.is_active() {
            return None;
        }
        match find_prompt_row(cells) {
            None => None,
            Some(prompt_row) => {
                let col = PROMPT_BASE_COL + self.committed_width;
                let row = prompt_row as u16 + col / cols;
                Some((row, col % cols))
            },
        }
    }
}

} // verus!
