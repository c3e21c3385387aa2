//! Correcting Hangul input-method events before they reach the PTY.
//!
//! On the first Hangul key the plain key event can arrive before the input
//! method is enabled, so the initial consonant goes missing; this handler
//! keeps it and composes the syllable itself.
use vstd::prelude::*;
use vstd::utf8::encode_utf8;
use crate::hangul::{
    choseong, jungseong, syllable_code, spec_cho_index, spec_jung_index, spec_jong_index,
    lemma_position_from, cho_index, jung_index, jong_index, char_from_u32, jongseong,
};
use crate::text::char_to_string;

verus! {

#[derive(Debug, PartialEq)]
pub enum Action {
    WritePty(Vec<u8>),
    SetPreedit(String),
}

/// The value of an `Action`: the bytes to write or the preedit text.
pub enum ActionView {
    WritePty(Seq<u8>),
    SetPreedit(Seq<char>),
}

impl Action {
    pub open spec fn view(&self) -> ActionView {
        match self {
            Action::WritePty(b) => ActionView::WritePty(b@),
            Action::SetPreedit(s) => ActionView::SetPreedit(s@),
        }
    }
}

/// Whether `text` is exactly one jamo: a conjoining jamo (U+1100..=U+11FF)
/// or a compatibility jamo (U+3131..=U+318E).
pub open spec fn spec_single_jamo(text: Seq<char>) -> Option<char> {
    if text.len() == 1 && ((0x1100 <= text[0] as u32 <= 0x11FF) || (0x3131 <= text[0] as u32
        <= 0x318E)) {
        Some(text[0])
    } else {
        None
    }
}

/// The syllable of an initial and a medial, if both are in the tables.
pub open spec fn spec_compose_chojung(cho: char, jung: char) -> Option<char> {
    match (spec_cho_index(cho), spec_jung_index(jung)) {
        (Some(c), Some(j)) => Some(syllable_code(c, j, 0) as char),
        _ => None,
    }
}

/// The syllable that two or three gathered jamo make, if any.
pub open spec fn spec_try_compose(buf: Seq<char>) -> Option<char> {
    if buf.len() == 2 {
        spec_compose_chojung(buf[0], buf[1])
    } else if buf.len() == 3 {
        match (spec_cho_index(buf[0]), spec_jung_index(buf[1]), spec_jong_index(buf[2])) {
            (Some(c), Some(j), Some(k)) => Some(syllable_code(c, j, k) as char),
            _ => None,
        }
    } else {
        None
    }
}

/// The tables of initials, medials and finals hold no entry twice.
proof fn lemma_tables_distinct()
    ensures
        forall|i: int, j: int| 0 <= i < j < 19 ==> #[trigger] choseong()[i] != #[trigger] choseong()[j],
        forall|i: int, j: int| 0 <= i < j < 21 ==> #[trigger] jungseong()[i] != #[trigger] jungseong()[j],
        forall|i: int, j: int| 0 <= i < j < 27 ==> #[trigger] jongseong()[i] != #[trigger] jongseong()[j],
        choseong().len() == 19,
        jungseong().len() == 21,
        jongseong().len() == 27,
{
}

/// An entry of a table is found at its own place.
proof fn lemma_index_of_entry(t: Seq<char>, i: int)
    requires
        0 <= i < t.len(),
        forall|a: int, b: int| 0 <= a < b < t.len() ==> #[trigger] t[a] != #[trigger] t[b],
    ensures
        crate::hangul::position(t, t[i]) == Some(i),
{
    lemma_position_from(t, t[i], 0);
}

/// The initial number `ci` and the medial number `ji`, gathered one after
/// the other, compose to the syllable with code `0xAC00 + ci * 588 + ji * 28`;
/// with the final number `ki` after them, to the one `ki` further on.
pub proof fn lemma_gathered_jamo_compose(ci: int, ji: int, ki: int)
    requires
        0 <= ci < 19,
        0 <= ji < 21,
        1 <= ki <= 27,
    ensures
        spec_try_compose(seq![choseong()[ci], jungseong()[ji]]) == Some((0xAC00 + ci * 588 + ji * 28) as char),
        spec_try_compose(seq![choseong()[ci], jungseong()[ji], jongseong()[ki - 1]]) == Some(
            (0xAC00 + ci * 588 + ji * 28 + ki) as char,
        ),
{
    lemma_tables_distinct();
    lemma_index_of_entry(choseong(), ci);
    lemma_index_of_entry(jungseong(), ji);
    lemma_index_of_entry(jongseong(), ki - 1);
    assert(syllable_code(ci, ji, 0) == 0xAC00 + ci * 588 + ji * 28) by (nonlinear_arith);
    assert(syllable_code(ci, ji, ki) == 0xAC00 + ci * 588 + ji * 28 + ki) by (nonlinear_arith);
    let b2 = seq![choseong()[ci], jungseong()[ji]];
    let b3 = seq![choseong()[ci], jungseong()[ji], jongseong()[ki - 1]];
    assert(b2[0] == choseong()[ci] && b2[1] == jungseong()[ji]);
    assert(b3[0] == choseong()[ci] && b3[1] == jungseong()[ji] && b3[2] == jongseong()[ki - 1]);
}

/// The UTF-8 bytes of one character.
pub open spec fn char_bytes(c: char) -> Seq<u8> {
    encode_utf8(seq![c])
}

pub struct ImeHandler {
    pending_jamo: Option<char>,
    /// Jamo gathered because the missing initial broke the composition.
    composing_buf: Vec<char>,
    preedit: String,
}

fn single_jamo(text: &str) -> (r: Option<char>)
    ensures
        r == spec_single_jamo(text@),
{
    if text.unicode_len() != 1 {
        return None;
    }
    let c = text.get_char(0);
    if ('\u{1100}' <= c && c <= '\u{11FF}') || ('\u{3131}' <= c && c <= '\u{318E}') {
        Some(c)
    } else {
        None
    }
}

fn compose_chojung(cho: char, jung: char) -> (r: Option<char>)
    ensures
        r == spec_compose_chojung(cho, jung),
{
    let ci = match cho_index(cho) {
        Some(i) => i,
        None => return None,
    };
    let ji = match jung_index(jung) {
        Some(j) => j,
        None => return None,
    };
    proof {
        lemma_position_from(choseong(), cho, 0);
        lemma_position_from(jungseong(), jung, 0);
    }
    assert(ci * 21 * 28 <= 18 * 21 * 28 && ji * 28 <= 20 * 28) by (nonlinear_arith)
        requires
            ci < 19,
            ji < 21,
    ;
    let code = 0xAC00u32 + ci * 21 * 28 + ji * 28;
    char_from_u32(code)
}

/// Composes the gathered jamo: initial and medial, and a final when there
/// are three.
fn try_compose(buf: &Vec<char>) -> (r: Option<char>)
    ensures
        r == spec_try_compose(buf@),
{
    if buf.len() == 2 {
        compose_chojung(buf[0], buf[1])
    } else if buf.len() == 3 {
        let base = match compose_chojung(buf[0], buf[1]) {
            Some(b) => b,
            None => return None,
        };
        let jong = match jong_index(buf[2]) {
            Some(k) => k,
            None => return None,
        };
        proof {
            lemma_position_from(choseong(), buf[0], 0);
            lemma_position_from(jungseong(), buf[1], 0);
            lemma_position_from(jongseong(), buf[2], 0);
        }
        let ghost c = spec_cho_index(buf[0])->0;
        let ghost j = spec_jung_index(buf[1])->0;
        assert(c * 21 * 28 <= 18 * 21 * 28 && j * 28 <= 20 * 28) by (nonlinear_arith)
            requires
                0 <= c < 19,
                0 <= j < 21,
        ;
        char_from_u32(base as u32 + jong)
    } else {
        None
    }
}

/// The UTF-8 bytes of `c`.
fn char_utf8(c: char) -> (b: Vec<u8>)
    ensures
        b@ == char_bytes(c),
{
    let s = char_to_string(c);
    vstd::slice::slice_to_vec(s.as_str().as_bytes())
}

/// Appends `bytes` to `v`.
fn append_bytes(v: &mut Vec<u8>, bytes: &[u8])
    ensures
        final(v)@ == old(v)@ + bytes@,
{
    let mut i: usize = 0;
    while i < bytes.len()
        invariant
            i <= bytes.len(),
            v@ == old(v)@ + bytes@.take(i as int),
        decreases bytes.len() - i,
    {
        v.push(bytes[i]);
        assert(bytes@.take(i + 1) == bytes@.take(i as int).push(bytes@[i as int]));
        i = i + 1;
    }
    assert(bytes@.take(bytes.len() as int) == bytes@);
}

impl ImeHandler {
    /// The initial consonant kept from a key that came too early.
    pub closed spec fn spec_pending_jamo(&self) -> Option<char> {
        self.pending_jamo
    }

    /// The jamo gathered for composing.
    pub closed spec fn spec_composing(&self) -> Seq<char> {
        self.composing_buf@
    }

    /// The current preedit text.
    pub closed spec fn spec_preedit(&self) -> Seq<char> {
        self.preedit@
    }

    pub fn new() -> (h: Self)
        ensures
            h.spec_pending_jamo() is None,
            h.spec_composing() == Seq::<char>::empty(),
            h.spec_preedit() == Seq::<char>::empty(),
    {
        Self { pending_jamo: None, composing_buf: Vec::new(), preedit: String::new() }
    }

    pub fn preedit(&self) -> (s: &str)
        ensures
            s@ == self.spec_preedit(),
    {
        self.preedit.as_str()
    }

    pub fn pending_jamo(&self) -> (c: Option<char>)
        ensures
            c == self.spec_pending_jamo(),
    {
        self.pending_jamo
    }

    pub fn is_composing(&self) -> (b: bool)
        ensures
            b == (self.spec_preedit().len() > 0),
    {
        !self.preedit.as_str().is_empty()
    }

    /// A plain character key. A Hangul jamo is kept back (the input method
    /// will compose it); anything else goes to the PTY. Nothing happens while
    /// a preedit is showing.
    pub fn handle_plain_char_input(&mut self, text: Option<&str>) -> (r: Option<Action>)
        ensures
            final(self).spec_preedit() == old(self).spec_preedit(),
            old(self).spec_preedit().len() > 0 || text is None ==> {
                &&& r is None
                &&& final(self).spec_pending_jamo() == old(self).spec_pending_jamo()
                &&& final(self).spec_composing() == old(self).spec_composing()
            },
            old(self).spec_preedit().len() == 0 && text is Some ==> match spec_single_jamo(
                text->0@,
            ) {
                Some(c) => {
                    &&& r is None
                    &&& final(self).spec_pending_jamo() == Some(c)
                    &&& final(self).spec_composing() == seq![c]
                },
                None => {
                    &&& r is Some
                    &&& r->0.view() == ActionView::WritePty(encode_utf8(text->0@))
                    &&& final(self).spec_pending_jamo() == old(self).spec_pending_jamo()
                    &&& final(self).spec_composing() == old(self).spec_composing()
                },
            },
    {
        if self.is_composing() {
            return None;
        }
        let t = match text {
            Some(t) => t,
            None => return None,
        };
        if let Some(c) = single_jamo(t) {
            self.pending_jamo = Some(c);
            self.composing_buf.clear();
            self.composing_buf.push(c);
            assert(self.composing_buf@ == seq![c]);
            return None;
        }
        Some(Action::WritePty(vstd::slice::slice_to_vec(t.as_bytes())))
    }

    /// An input-method preedit. With an initial kept back and a lone medial
    /// as the preedit, the two are shown composed.
    pub fn handle_ime_preedit(&mut self, text: &str) -> (r: Action)
        ensures
            final(self).spec_pending_jamo() is None,
            final(self).spec_composing() == old(self).spec_composing(),
            final(self).spec_preedit() == (match old(self).spec_pending_jamo() {
                Some(cho) => match spec_single_jamo(text@) {
                    Some(jung) => match spec_compose_chojung(cho, jung) {
                        Some(s) => seq![s],
                        None => text@,
                    },
                    None => text@,
                },
                None => text@,
            }),
            r.view() == ActionView::SetPreedit(final(self).spec_preedit()),
    {
        if let Some(cho) = self.pending_jamo.take() {
            if let Some(jung) = single_jamo(text) {
                if let Some(composed) = compose_chojung(cho, jung) {
                    self.preedit = char_to_string(composed);
                    return Action::SetPreedit(self.preedit.clone());
                }
            }
        }
        self.preedit = text.to_owned();
        Action::SetPreedit(self.preedit.clone())
    }

    /// An input-method commit. A lone jamo joins the gathered ones (and a
    /// complete syllable of three goes out); anything else writes the
    /// gathered syllable, if any, and then the text.
    pub fn handle_ime_commit(&mut self, text: &str) -> (r: Action)
        ensures
            final(self).spec_preedit() == Seq::<char>::empty(),
            final(self).spec_pending_jamo() == old(self).spec_pending_jamo(),
            ({
                let buf = old(self).spec_composing();
                match spec_single_jamo(text@) {
                    Some(j) if buf.len() > 0 => {
                        let nb = buf.push(j);
                        if nb.len() == 3 && spec_try_compose(nb) is Some {
                            &&& final(self).spec_composing() == Seq::<char>::empty()
                            &&& r.view() == ActionView::WritePty(char_bytes(spec_try_compose(nb)->0))
                        } else {
                            &&& final(self).spec_composing() == nb
                            &&& r.view() == ActionView::SetPreedit(Seq::empty())
                        }
                    },
                    _ => {
                        let head = if buf.len() > 0 && spec_try_compose(buf) is Some {
                            char_bytes(spec_try_compose(buf)->0)
                        } else {
                            Seq::empty()
                        };
                        &&& final(self).spec_composing() == Seq::<char>::empty()
                        &&& r.view() == ActionView::WritePty(head + encode_utf8(text@))
                    },
                }
            }),
            // An initial and a medial gathered, then other text: the syllable
            // they make goes out first.
            ({
                let buf = old(self).spec_composing();
                buf.len() == 2 && spec_single_jamo(text@) is None
                    ==> match (spec_cho_index(buf[0]), spec_jung_index(buf[1])) {
                        (Some(ci), Some(ji)) => r.view() == ActionView::WritePty(
                            char_bytes((0xAC00 + ci * 588 + ji * 28) as char) + encode_utf8(text@),
                        ),
                        _ => r.view() == ActionView::WritePty(encode_utf8(text@)),
                    }
            }),
    {
        proof {
            let buf = self.composing_buf@;
            if buf.len() == 2 {
                lemma_position_from(choseong(), buf[0], 0);
                lemma_position_from(jungseong(), buf[1], 0);
                if let (Some(ci), Some(ji)) = (spec_cho_index(buf[0]), spec_jung_index(buf[1])) {
                    lemma_gathered_jamo_compose(ci, ji, 1);
                    assert(buf =~= seq![choseong()[ci], jungseong()[ji]]);
                }
            }
        }
        self.preedit = String::new();
        if let Some(jamo) = single_jamo(text) {
            if self.composing_buf.len() > 0 {
                self.composing_buf.push(jamo);
                if self.composing_buf.len() == 3 {
                    if let Some(syllable) = try_compose(&self.composing_buf) {
                        self.composing_buf.clear();
                        return Action::WritePty(char_utf8(syllable));
                    }
                }
                return Action::SetPreedit(String::new());
            }
        }
        let mut bytes: Vec<u8> = Vec::new();
        if self.composing_buf.len() > 0 {
            if let Some(syllable) = try_compose(&self.composing_buf) {
                let sb = char_utf8(syllable);
                append_bytes(&mut bytes, sb.as_slice());
            }
            self.composing_buf.clear();
        }
        append_bytes(&mut bytes, text.as_bytes());
        Action::WritePty(bytes)
    }
}

} // verus!
