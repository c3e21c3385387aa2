//! What the macOS app does with a key pressed together with Command, and
//! the text it types for files dropped on the window.
use vstd::prelude::*;

use crate::keycode;
use crate::text::{is_whitespace, push_char, spec_is_whitespace};

verus! {

/// An app action bound to a Command shortcut.
#[derive(Debug, Clone, Copy, PartialEq, Eq, Structural)]
pub enum SuperCommand {
    NewTab,
    CloseTab,
    PrevTab,
    NextTab,
    /// Switch to the tab at this index (Command with 1 to 9).
    SwitchTab(usize),
    ScrollPageUp,
    ScrollPageDown,
    Copy,
    Paste,
    ZoomIn,
    ZoomOut,
}

/// The action of a key pressed with Command (and Shift when `shift`):
/// T new tab, W close tab, Shift+[ and Shift+] previous and next tab, 1 to 9
/// a tab by number, Page Up and Page Down scroll a page, C copy, V paste,
/// = and - zoom. Other keys do nothing.
pub open spec fn spec_super_command(keycode: u16, shift: bool) -> Option<SuperCommand> {
    if keycode == keycode::ANSI_T {
        Some(SuperCommand::NewTab)
    } else if keycode == keycode::ANSI_W {
        Some(SuperCommand::CloseTab)
    } else if shift && keycode == keycode::ANSI_LEFT_BRACKET {
        Some(SuperCommand::PrevTab)
    } else if shift && keycode == keycode::ANSI_RIGHT_BRACKET {
        Some(SuperCommand::NextTab)
    } else if keycode == keycode::ANSI_1 {
        Some(SuperCommand::SwitchTab(0))
    } else if keycode == keycode::ANSI_2 {
        Some(SuperCommand::SwitchTab(1))
    } else if keycode == keycode::ANSI_3 {
        Some(SuperCommand::SwitchTab(2))
    } else if keycode == keycode::ANSI_4 {
        Some(SuperCommand::SwitchTab(3))
    } else if keycode == keycode::ANSI_5 {
        Some(SuperCommand::SwitchTab(4))
    } else if keycode == keycode::ANSI_6 {
        Some(SuperCommand::SwitchTab(5))
    } else if keycode == keycode::ANSI_7 {
        Some(SuperCommand::SwitchTab(6))
    } else if keycode == keycode::ANSI_8 {
        Some(SuperCommand::SwitchTab(7))
    } else if keycode == keycode::ANSI_9 {
        Some(SuperCommand::SwitchTab(8))
    } else if keycode == keycode::PAGE_UP {
        Some(SuperCommand::ScrollPageUp)
    } else if keycode == keycode::PAGE_DOWN {
        Some(SuperCommand::ScrollPageDown)
    } else if keycode == keycode::ANSI_C {
        Some(SuperCommand::Copy)
    } else if keycode == keycode::ANSI_V {
        Some(SuperCommand::Paste)
    } else if keycode == keycode::ANSI_EQUAL {
        Some(SuperCommand::ZoomIn)
    } else if keycode == keycode::ANSI_MINUS {
        Some(SuperCommand::ZoomOut)
    } else {
        None
    }
}

pub fn super_command(keycode: u16, shift: bool) -> (c: Option<SuperCommand>)
    ensures
        c == spec_super_command(keycode, shift),
{
    if keycode == keycode::ANSI_T {
        Some(SuperCommand::NewTab)
    } else if keycode == keycode::ANSI_W {
        Some(SuperCommand::CloseTab)
    } else if shift && keycode == keycode::ANSI_LEFT_BRACKET {
        Some(SuperCommand::PrevTab)
    } else if shift && keycode == keycode::ANSI_RIGHT_BRACKET {
        Some(SuperCommand::NextTab)
    } else if keycode == keycode::ANSI_1 {
        Some(SuperCommand::SwitchTab(0))
    } else if keycode == keycode::ANSI_2 {
        Some(SuperCommand::SwitchTab(1))
    } else if keycode == keycode::ANSI_3 {
        Some(SuperCommand::SwitchTab(2))
    } else if keycode == keycode::ANSI_4 {
        Some(SuperCommand::SwitchTab(3))
    } else if keycode == keycode::ANSI_5 {
        Some(SuperCommand::SwitchTab(4))
    } else if keycode == keycode::ANSI_6 {
        Some(SuperCommand::SwitchTab(5))
    } else if keycode == keycode::ANSI_7 {
        Some(SuperCommand::SwitchTab(6))
    } else if keycode == keycode::ANSI_8 {
        Some(SuperCommand::SwitchTab(7))
    } else if keycode == keycode::ANSI_9 {
        Some(SuperCommand::SwitchTab(8))
    } else if keycode == keycode::PAGE_UP {
        Some(SuperCommand::ScrollPageUp)
    } else if keycode == keycode::PAGE_DOWN {
        Some(SuperCommand::ScrollPageDown)
    } else if keycode == keycode::ANSI_C {
        Some(SuperCommand::Copy)
    } else if keycode == keycode::ANSI_V {
        Some(SuperCommand::Paste)
    } else if keycode == keycode::ANSI_EQUAL {
        Some(SuperCommand::ZoomIn)
    } else if keycode == keycode::ANSI_MINUS {
        Some(SuperCommand::ZoomOut)
    } else {
        None
    }
}

/// Whether the bytes a key sends are a bare carriage return or line feed
/// (Enter).
pub fn is_enter(bytes: &Vec<u8>) -> (b: bool)
    ensures
        b == (bytes@ == seq![0x0du8] || bytes@ == seq![0x0au8]),
{
    if bytes.len() != 1 {
        assert(bytes@ != seq![0x0du8] && bytes@ != seq![0x0au8]);
        return false;
    }
    let b = bytes[0];
    assert(b == 0x0d ==> bytes@ =~= seq![0x0du8]);
    assert(b == 0x0a ==> bytes@ =~= seq![0x0au8]);
    b == 0x0d || b == 0x0a
}

/// The characters that make the shell read a word otherwise than as it is.
pub open spec fn is_shell_special(c: char) -> bool {
    c == '"' || c == '\'' || c == '\\' || c == '$' || c == '`' || c == '!' || c == '#' || c == '&'
        || c == '|' || c == ';' || c == '(' || c == ')' || c == '{' || c == '}' || c == '[' || c
        == ']' || c == '<' || c == '>' || c == '?' || c == '*' || c == '~'
}

/// Whether a path must be quoted for the shell: it holds white space or a
/// special character.
pub open spec fn needs_quoting(s: Seq<char>) -> bool {
    exists|i: int| 0 <= i < s.len() && (spec_is_whitespace(#[trigger] s[i]) || is_shell_special(s[i]))
}

/// `s` with each single quote written as `'\''`, for use between single
/// quotes.
pub open spec fn escape_quotes(s: Seq<char>) -> Seq<char>
    decreases s.len(),
{
    if s.len() == 0 {
        seq![]
    } else {
        let last = if s.last() == '\'' {
            seq!['\'', '\\', '\'', '\'']
        } else {
            seq![s.last()]
        };
        escape_quotes(s.drop_last()) + last
    }
}

/// A path as the shell reads it back: as it is when nothing in it needs
/// quoting, otherwise between single quotes.
pub open spec fn spec_shell_escape(s: Seq<char>) -> Seq<char> {
    if needs_quoting(s) {
        seq!['\''] + escape_quotes(s) + seq!['\'']
    } else {
        s
    }
}

/// The characters a POSIX shell does not take as part of a plain word: the
/// operators and quoting characters `| & ; < > ( ) $ ` \ " '`, the blanks
/// and newline that end a word, the pattern characters `* ? [`, and `~` and
/// `#`, which expand or start a comment at the start of a word.
pub open spec fn posix_needs_quote(c: char) -> bool {
    c == '|' || c == '&' || c == ';' || c == '<' || c == '>' || c == '(' || c == ')' || c == '$'
        || c == '`' || c == '\\' || c == '"' || c == '\'' || c == ' ' || c == '\t' || c == '\n'
        || c == '*' || c == '?' || c == '[' || c == '~' || c == '#'
}

/// `q` put before what `o` holds.
pub open spec fn prepend(q: Seq<char>, o: Option<Seq<char>>) -> Option<Seq<char>> {
    match o {
        Some(r) => Some(q + r),
        None => None,
    }
}

/// How a POSIX shell reads `s[i..]` as one word, inside single quotes when
/// `quoted`: a single quote opens or closes quoting, inside quotes every
/// other character stands for itself, outside them a backslash keeps the
/// next character, and a character that needs quoting ends the reading
/// with no word (`None`), as does text that ends inside quotes.
pub open spec fn shell_word(s: Seq<char>, i: int, quoted: bool) -> Option<Seq<char>>
    decreases s.len() - i,
{
    if i < 0 || i >= s.len() {
        if quoted { None } else { Some(seq![]) }
    } else if quoted {
        if s[i] == '\'' {
            shell_word(s, i + 1, false)
        } else {
            prepend(seq![s[i]], shell_word(s, i + 1, true))
        }
    } else if s[i] == '\'' {
        shell_word(s, i + 1, true)
    } else if s[i] == '\\' {
        if i + 1 < s.len() {
            prepend(seq![s[i + 1]], shell_word(s, i + 2, false))
        } else {
            None
        }
    } else if posix_needs_quote(s[i]) {
        None
    } else {
        prepend(seq![s[i]], shell_word(s, i + 1, false))
    }
}

proof fn lemma_plain_word(p: Seq<char>, i: int)
    requires
        0 <= i <= p.len(),
        !needs_quoting(p),
    ensures
        shell_word(p, i, false) == Some(p.skip(i)),
    decreases p.len() - i,
{
    if i < p.len() {
        assert(!(spec_is_whitespace(p[i]) || is_shell_special(p[i])));
        lemma_plain_word(p, i + 1);
        assert(seq![p[i]] + p.skip(i + 1) =~= p.skip(i));
    } else {
        assert(p.skip(i) =~= Seq::<char>::empty());
    }
}

proof fn lemma_quoted_body(a: Seq<char>, q: Seq<char>, b: Seq<char>)
    ensures
        shell_word(a + escape_quotes(q) + b, a.len() as int, true) == prepend(
            q,
            shell_word(a + escape_quotes(q) + b, (a.len() + escape_quotes(q).len()) as int, true),
        ),
    decreases q.len(),
{
    let s = a + escape_quotes(q) + b;
    if q.len() == 0 {
        assert(escape_quotes(q) =~= Seq::<char>::empty());
        match shell_word(s, a.len() as int, true) {
            Some(r) => assert(q + r =~= r),
            None => {},
        }
    } else {
        let q0 = q.drop_last();
        let x = q.last();
        let piece = if x == '\'' { seq!['\'', '\\', '\'', '\''] } else { seq![x] };
        assert(escape_quotes(q) == escape_quotes(q0) + piece);
        assert(s =~= a + escape_quotes(q0) + (piece + b));
        lemma_quoted_body(a, q0, piece + b);
        let j: int = (a.len() + escape_quotes(q0).len()) as int;
        let e: int = j + piece.len();
        assert(s.len() == a.len() + escape_quotes(q0).len() + piece.len() + b.len());
        if x == '\'' {
            assert(s[j] == '\'');
            assert(s[j + 1] == '\\');
            assert(s[j + 2] == '\'');
            assert(s[j + 3] == '\'');
            assert(j + 4 <= s.len());
            assert(shell_word(s, j + 3, false) == shell_word(s, j + 4, true));
            assert(shell_word(s, j + 1, false) == prepend(seq!['\''], shell_word(s, j + 3, false)));
            assert(shell_word(s, j, true) == shell_word(s, j + 1, false));
            assert(shell_word(s, j, true) == prepend(seq!['\''], shell_word(s, j + 4, true)));
        } else {
            assert(s[j] == x);
            assert(shell_word(s, j, true) == prepend(seq![x], shell_word(s, j + 1, true)));
        }
        match shell_word(s, e, true) {
            Some(r) => {
                assert(q0 + (seq![x] + r) =~= q + r);
            },
            None => {},
        }
    }
}

/// What the terminal types for a dropped path, read back by a POSIX shell,
/// is one word and that word is the path: whatever characters the path
/// holds, none of them is taken as an operator, a pattern or a quote.
pub proof fn lemma_shell_reads_back_the_path(p: Seq<char>)
    ensures
        shell_word(spec_shell_escape(p), 0, false) == Some(p),
{
    if !needs_quoting(p) {
        lemma_plain_word(p, 0);
        assert(p.skip(0) =~= p);
    } else {
        let a = seq!['\''];
        let b = seq!['\''];
        let s = a + escape_quotes(p) + b;
        assert(spec_shell_escape(p) == s);
        lemma_quoted_body(a, p, b);
        let e: int = (1 + escape_quotes(p).len()) as int;
        assert(s[0] == '\'');
        assert(s[e] == '\'');
        assert(shell_word(s, e + 1, false) == Some(Seq::<char>::empty()));
        assert(p + Seq::<char>::empty() =~= p);
    }
}

fn is_special_char(c: char) -> (b: bool)
    ensures
        b == is_shell_special(c),
{
    c == '"' || c == '\'' || c == '\\' || c == '$' || c == '`' || c == '!' || c == '#' || c == '&'
        || c == '|' || c == ';' || c == '(' || c == ')' || c == '{' || c == '}' || c == '[' || c
        == ']' || c == '<' || c == '>' || c == '?' || c == '*' || c == '~'
}

/// Appends `path` as the shell reads it back.
fn push_shell_escaped(out: &mut String, path: &str)
    ensures
        final(out)@ == old(out)@ + spec_shell_escape(path@),
{
    let n = path.unicode_len();
    let mut quote = false;
    let mut i: usize = 0;
    while i < n
        invariant
            i <= n == path@.len(),
            quote == exists|j: int|
                0 <= j < i && (spec_is_whitespace(#[trigger] path@[j]) || is_shell_special(path@[j])),
        decreases n - i,
    {
        let c = path.get_char(i);
        if is_whitespace(c) || is_special_char(c) {
            quote = true;
        }
        i = i + 1;
    }
    if !quote {
        let mut k: usize = 0;
        let ghost start = out@;
        while k < n
            invariant
                k <= n == path@.len(),
                out@ == start + path@.take(k as int),
            decreases n - k,
        {
            push_char(out, path.get_char(k));
            assert(path@.take(k + 1) =~= path@.take(k as int).push(path@[k as int]));
            k = k + 1;
        }
        assert(path@.take(n as int) =~= path@);
        return;
    }
    push_char(out, '\'');
    let ghost start = out@;
    let mut k: usize = 0;
    while k < n
        invariant
            k <= n == path@.len(),
            out@ == start + escape_quotes(path@.take(k as int)),
        decreases n - k,
    {
        let c = path.get_char(k);
        if c == '\'' {
            push_char(out, '\'');
            push_char(out, '\\');
            push_char(out, '\'');
            push_char(out, '\'');
        } else {
            push_char(out, c);
        }
        assert(path@.take(k + 1).drop_last() =~= path@.take(k as int));
        k = k + 1;
    }
    assert(path@.take(n as int) =~= path@);
    push_char(out, '\'');
}

/// A path as the shell reads it back (`'…'` when it needs quoting).
pub fn shell_escape(path: &str) -> (s: String)
    ensures
        s@ == spec_shell_escape(path@),
{
    let mut s = String::new();
    push_shell_escaped(&mut s, path);
    s
}

/// The escaped paths, separated by single spaces.
pub open spec fn joined_paths(paths: Seq<String>) -> Seq<char>
    decreases paths.len(),
{
    if paths.len() == 0 {
        seq![]
    } else if paths.len() == 1 {
        spec_shell_escape(paths[0]@)
    } else {
        joined_paths(paths.drop_last()) + seq![' '] + spec_shell_escape(paths.last()@)
    }
}

/// What the terminal types for files dropped on its window: each path as
/// the shell reads it back, separated by spaces.
pub fn dropped_paths_text(paths: &Vec<String>) -> (s: String)
    ensures
        s@ == joined_paths(paths@),
{
    let mut s = String::new();
    let mut i: usize = 0;
    while i < paths.len()
        invariant
            i <= paths.len(),
            s@ == joined_paths(paths@.take(i as int)),
        decreases paths.len() - i,
    {
        assert(paths@.take(i + 1).drop_last() =~= paths@.take(i as int));
        if i > 0 {
            push_char(&mut s, ' ');
        }
        push_shell_escaped(&mut s, paths[i].as_str());
        i = i + 1;
    }
    assert(paths@.take(paths.len() as int) =~= paths@);
    s
}

} // verus!
