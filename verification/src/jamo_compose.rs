//! Buffering and composing Hangul jamo that arrive one by one.
//!
//! Before the input method is ready, single jamo (ㅎ, ㅏ, ㄴ) are committed
//! one at a time; this buffer gathers them and composes syllables.
use vstd::prelude::*;
use crate::hangul::{
    choseong, jongseong, spec_cho_index, spec_jung_index, spec_jong_index, syllable_code,
    lemma_position_from, cho_index, jung_index, jong_index, cho_char, jong_char, compose_syllable,
    jungseong,
};
use crate::text::{char_to_string, push_char};

verus! {

/// Whether `text` is one compatibility jamo (U+3131..=U+3163).
pub open spec fn spec_is_single_jamo(text: Seq<char>) -> Option<char> {
    if text.len() == 1 && 0x3131 <= text[0] as u32 <= 0x3163 {
        Some(text[0])
    } else {
        None
    }
}

/// Returns the jamo if `text` is exactly one compatibility jamo.
pub fn is_single_jamo(text: &str) -> (r: Option<char>)
    ensures
        r == spec_is_single_jamo(text@),
{
    if text.unicode_len() != 1 {
        return None;
    }
    let c = text.get_char(0);
    if '\u{3131}' <= c && c <= '\u{3163}' {
        Some(c)
    } else {
        None
    }
}

/// What the buffer holds: nothing, an initial, an initial and a medial, or
/// all three (the final as its 1-based table number).
#[derive(Debug, Clone, Copy, PartialEq, Eq)]
pub enum BufState {
    Empty,
    Cho(u32),
    ChoJung(u32, u32),
    ChoJungJong(u32, u32, u32),
}

/// The table indices of a state are in range.
pub open spec fn state_wf(st: BufState) -> bool {
    match st {
        BufState::Empty => true,
        BufState::Cho(c) => c < 19,
        BufState::ChoJung(c, j) => c < 19 && j < 21,
        BufState::ChoJungJong(c, j, k) => c < 19 && j < 21 && 1 <= k <= 27,
    }
}

/// The one-character string of the syllable `(cho, jung, jong)`.
pub open spec fn syllable(cho: int, jung: int, jong: int) -> char {
    syllable_code(cho, jung, jong) as char
}

/// What a state stands for when written out as it is.
pub open spec fn pending_text(st: BufState) -> Option<Seq<char>> {
    match st {
        BufState::Empty => None,
        BufState::Cho(c) => Some(seq![choseong()[c as int]]),
        BufState::ChoJung(c, j) => Some(seq![syllable(c as int, j as int, 0)]),
        BufState::ChoJungJong(c, j, k) => Some(seq![syllable(c as int, j as int, k as int)]),
    }
}

/// The initial that the final with table number `jong` can become.
pub open spec fn spec_jong_to_cho(jong: int) -> Option<int> {
    spec_cho_index(jongseong()[jong - 1])
}

/// The next state and the output when the jamo `c` arrives in state `st`.
pub open spec fn jamo_step(st: BufState, c: char) -> (BufState, Option<Seq<char>>) {
    let cho = spec_cho_index(c);
    let jung = spec_jung_index(c);
    let jong = spec_jong_index(c);
    match st {
        BufState::Empty => {
            if cho is Some {
                (BufState::Cho(cho->0 as u32), None)
            } else {
                (BufState::Empty, Some(seq![c]))
            }
        },
        BufState::Cho(pc) => {
            if jung is Some {
                (BufState::ChoJung(pc, jung->0 as u32), None)
            } else if cho is Some {
                (BufState::Cho(cho->0 as u32), Some(seq![choseong()[pc as int]]))
            } else {
                (BufState::Empty, Some(seq![choseong()[pc as int], c]))
            }
        },
        BufState::ChoJung(pc, pj) => {
            let s = syllable(pc as int, pj as int, 0);
            if jong is Some {
                (BufState::ChoJungJong(pc, pj, jong->0 as u32), None)
            } else if cho is Some {
                (BufState::Cho(cho->0 as u32), Some(seq![s]))
            } else {
                (BufState::Empty, Some(seq![s, c]))
            }
        },
        BufState::ChoJungJong(pc, pj, pk) => {
            if jung is Some {
                let s = syllable(pc as int, pj as int, 0);
                match spec_jong_to_cho(pk as int) {
                    Some(nc) => (BufState::ChoJung(nc as u32, jung->0 as u32), Some(seq![s])),
                    None => (BufState::Empty, Some(seq![s, jongseong()[pk - 1], c])),
                }
            } else if cho is Some {
                (BufState::Cho(cho->0 as u32), Some(seq![syllable(pc as int, pj as int, pk as int)]))
            } else {
                (BufState::Empty, Some(seq![syllable(pc as int, pj as int, pk as int), c]))
            }
        },
    }
}

/// The next state and the output when `text` is pushed in state `st`: a
/// single jamo takes a step; anything else writes out what is pending and
/// then passes through.
pub open spec fn push_step(st: BufState, text: Seq<char>) -> (BufState, Option<Seq<char>>) {
    match spec_is_single_jamo(text) {
        Some(c) => jamo_step(st, c),
        None => {
            let flushed = match pending_text(st) {
                Some(p) => p,
                None => Seq::empty(),
            };
            (BufState::Empty, Some(flushed + text))
        },
    }
}

pub struct JamoBuffer {
    state: BufState,
    active: bool,
}

impl JamoBuffer {
    /// What is buffered.
    pub closed spec fn state(&self) -> BufState {
        self.state
    }

    /// Whether the buffer is in the middle of gathering jamo.
    pub closed spec fn spec_active(&self) -> bool {
        self.active
    }

    #[verifier::type_invariant]
    closed spec fn inv(&self) -> bool {
        state_wf(self.state)
    }

    pub fn new() -> (b: Self)
        ensures
            b.state() == BufState::Empty,
            !b.spec_active(),
    {
        Self { state: BufState::Empty, active: false }
    }

    pub fn is_active(&self) -> (b: bool)
        ensures
            b == self.spec_active(),
    {
        self.active
    }

    /// Adds `text` to the buffer; returns text once there is some to write.
    pub fn push(&mut self, text: &str) -> (r: Option<String>)
        ensures
            state_wf(final(self).state()),
            final(self).state() == push_step(old(self).state(), text@).0,
            match r {
                Some(s) => push_step(old(self).state(), text@).1 == Some(s@),
                None => push_step(old(self).state(), text@).1 is None,
            },
            final(self).spec_active() == (spec_is_single_jamo(text@) is Some),
    {
        proof { use_type_invariant(&*self); }
        self.active = true;
        let jamo = match is_single_jamo(text) {
            Some(c) => c,
            None => {
                let mut result = String::new();
                let ghost before = result@;
                if let Some(flushed) = self.flush_inner() {
                    result.append(flushed.as_str());
                }
                result.append(text);
                self.active = false;
                return Some(result);
            },
        };
        let cho = cho_index(jamo);
        let jung = jung_index(jamo);
        let jong = jong_index(jamo);
        proof {
            lemma_position_from(choseong(), jamo, 0);
            lemma_position_from(jungseong(), jamo, 0);
            lemma_position_from(jongseong(), jamo, 0);
        }
        match self.state {
            BufState::Empty => {
                if let Some(ci) = cho {
                    self.state = BufState::Cho(ci);
                    None
                } else {
                    Some(char_to_string(jamo))
                }
            },
            BufState::Cho(pc) => {
                if let Some(ji) = jung {
                    self.state = BufState::ChoJung(pc, ji);
                    None
                } else if let Some(ci) = cho {
                    let prev = char_to_string(cho_char(pc));
                    self.state = BufState::Cho(ci);
                    Some(prev)
                } else {
                    let mut out = char_to_string(cho_char(pc));
                    push_char(&mut out, jamo);
                    self.state = BufState::Empty;
                    Some(out)
                }
            },
            BufState::ChoJung(pc, pj) => {
                if let Some(ki) = jong {
                    self.state = BufState::ChoJungJong(pc, pj, ki);
                    None
                } else if let Some(ci) = cho {
                    let s = compose_syllable(pc, pj, 0);
                    self.state = BufState::Cho(ci);
                    Some(char_to_string(s))
                } else {
                    let s = compose_syllable(pc, pj, 0);
                    let mut out = char_to_string(s);
                    push_char(&mut out, jamo);
                    self.state = BufState::Empty;
                    Some(out)
                }
            },
            BufState::ChoJungJong(pc, pj, pk) => {
                if let Some(ji) = jung {
                    let s = compose_syllable(pc, pj, 0);
                    match jong_to_cho(pk) {
                        Some(nc) => {
                            self.state = BufState::ChoJung(nc, ji);
                            Some(char_to_string(s))
                        },
                        None => {
                            self.state = BufState::Empty;
                            let mut out = char_to_string(s);
                            push_char(&mut out, jong_char(pk));
                            push_char(&mut out, jamo);
                            Some(out)
                        },
                    }
                } else if let Some(ci) = cho {
                    let s = compose_syllable(pc, pj, pk);
                    self.state = BufState::Cho(ci);
                    Some(char_to_string(s))
                } else {
                    let s = compose_syllable(pc, pj, pk);
                    let mut out = char_to_string(s);
                    push_char(&mut out, jamo);
                    self.state = BufState::Empty;
                    Some(out)
                }
            },
        }
    }

    /// Writes out whatever is pending and empties the buffer.
    pub fn flush(&mut self) -> (r: Option<String>)
        ensures
            final(self).state() == BufState::Empty,
            !final(self).spec_active(),
            match r {
                Some(s) => pending_text(old(self).state()) == Some(s@),
                None => pending_text(old(self).state()) is None,
            },
    {
        proof { use_type_invariant(&*self); }
        self.active = false;
        self.flush_inner()
    }

    fn flush_inner(&mut self) -> (r: Option<String>)
        ensures
            final(self).state() == BufState::Empty,
            final(self).spec_active() == old(self).spec_active(),
            match r {
                Some(s) => pending_text(old(self).state()) == Some(s@),
                None => pending_text(old(self).state()) is None,
            },
    {
        proof { use_type_invariant(&*self); }
        let result = match self.state {
            BufState::Empty => None,
            BufState::Cho(c) => Some(char_to_string(cho_char(c))),
            BufState::ChoJung(c, j) => Some(char_to_string(compose_syllable(c, j, 0))),
            BufState::ChoJungJong(c, j, k) => Some(char_to_string(compose_syllable(c, j, k))),
        };
        self.state = BufState::Empty;
        result
    }
}

/// The initial consonant that the final with table number `jong` becomes
/// when a vowel follows, if it can stand as an initial.
fn jong_to_cho(jong: u32) -> (r: Option<u32>)
    requires
        1 <= jong <= 27,
    ensures
        match r {
            Some(c) => spec_jong_to_cho(jong as int) == Some(c as int) && c < 19,
            None => spec_jong_to_cho(jong as int) is None,
        },
{
    let r = cho_index(jong_char(jong));
    proof { lemma_position_from(choseong(), jongseong()[jong - 1], 0); }
    r
}


/// The jamo a character stands for: a precomposed syllable gives its
/// initial, its medial and its final if it has one; any other character
/// stands for itself.
pub open spec fn char_jamo(ch: char) -> Seq<char> {
    let u = ch as int;
    if 0xAC00 <= u <= 0xD7A3 {
        let i = u - 0xAC00;
        let k = i % 28;
        seq![choseong()[i / 588], jungseong()[(i % 588) / 28]] + if k == 0 {
            Seq::<char>::empty()
        } else {
            seq![jongseong()[k - 1]]
        }
    } else {
        seq![ch]
    }
}

/// The jamo a text stands for, character by character.
pub open spec fn text_jamo(t: Seq<char>) -> Seq<char>
    decreases t.len(),
{
    if t.len() == 0 {
        Seq::empty()
    } else {
        text_jamo(t.drop_last()) + char_jamo(t.last())
    }
}

/// The jamo of what comes out, if anything.
pub open spec fn out_jamo(o: Option<Seq<char>>) -> Seq<char> {
    match o {
        Some(t) => text_jamo(t),
        None => Seq::empty(),
    }
}

/// The jamo that a buffer state holds, in the order they were typed.
pub open spec fn state_jamo(st: BufState) -> Seq<char> {
    match st {
        BufState::Empty => Seq::empty(),
        BufState::Cho(c) => seq![choseong()[c as int]],
        BufState::ChoJung(c, j) => seq![choseong()[c as int], jungseong()[j as int]],
        BufState::ChoJungJong(c, j, k) => seq![
            choseong()[c as int],
            jungseong()[j as int],
            jongseong()[k - 1],
        ],
    }
}

/// A compatibility jamo (U+3131..=U+3163).
pub open spec fn is_compat_jamo(c: char) -> bool {
    0x3131 <= c as u32 <= 0x3163
}

/// Every entry of the jamo tables is a compatibility jamo.
proof fn lemma_tables_are_jamo()
    ensures
        forall|i: int| 0 <= i < 19 ==> is_compat_jamo(#[trigger] choseong()[i]),
        forall|i: int| 0 <= i < 21 ==> is_compat_jamo(#[trigger] jungseong()[i]),
        forall|i: int| 0 <= i < 27 ==> is_compat_jamo(#[trigger] jongseong()[i]),
        choseong().len() == 19,
        jungseong().len() == 21,
        jongseong().len() == 27,
{
}

/// Text of characters that are no syllables stands for itself.
proof fn lemma_text_jamo_plain(t: Seq<char>)
    requires
        forall|i: int| 0 <= i < t.len() ==> is_compat_jamo(#[trigger] t[i]),
    ensures
        text_jamo(t) == t,
    decreases t.len(),
{
    if t.len() > 0 {
        lemma_text_jamo_plain(t.drop_last());
        assert(text_jamo(t) =~= t);
    }
}

proof fn lemma_text_jamo_append(a: Seq<char>, b: Seq<char>)
    ensures
        text_jamo(a + b) == text_jamo(a) + text_jamo(b),
    decreases b.len(),
{
    if b.len() == 0 {
        assert(a + b =~= a);
        assert(text_jamo(a) + text_jamo(b) =~= text_jamo(a));
    } else {
        lemma_text_jamo_append(a, b.drop_last());
        assert((a + b).drop_last() =~= a + b.drop_last());
        assert((a + b).last() == b.last());
        assert(text_jamo(a + b) =~= text_jamo(a) + text_jamo(b));
    }
}

proof fn lemma_text_jamo_one(x: char)
    ensures
        text_jamo(seq![x]) == char_jamo(x),
{
    let t = seq![x];
    assert(t.len() == 1);
    assert(t.drop_last() =~= Seq::<char>::empty());
    assert(t.last() == x);
    assert(text_jamo(t.drop_last()) =~= Seq::<char>::empty());
    assert(text_jamo(t) == text_jamo(t.drop_last()) + char_jamo(t.last()));
    assert(Seq::<char>::empty() + char_jamo(x) =~= char_jamo(x));
}

/// A syllable stands for its initial, medial and final.
proof fn lemma_syllable_jamo(c: int, j: int, k: int)
    requires
        0 <= c < 19,
        0 <= j < 21,
        0 <= k < 28,
    ensures
        char_jamo(syllable(c, j, k)) == seq![choseong()[c], jungseong()[j]] + if k == 0 {
            Seq::<char>::empty()
        } else {
            seq![jongseong()[k - 1]]
        },
{
    let i = c * 588 + j * 28 + k;
    assert(syllable_code(c, j, k) == 0xAC00 + i) by (nonlinear_arith)
        requires
            i == c * 588 + j * 28 + k,
    ;
    assert(0 <= i <= 11171 && i / 588 == c && (i % 588) / 28 == j && i % 28 == k) by (nonlinear_arith)
        requires
            i == c * 588 + j * 28 + k,
            0 <= c < 19,
            0 <= j < 21,
            0 <= k < 28,
    ;
    assert(syllable(c, j, k) as int == 0xAC00 + i);
}

/// What the buffer writes out, followed by what it still holds, is what it
/// held before followed by the jamo just typed: no jamo is lost or made up,
/// and they keep their order. A syllable counts as its initial, medial and
/// final.
pub proof fn lemma_push_keeps_every_jamo(st: BufState, c: char)
    requires
        state_wf(st),
        is_compat_jamo(c),
    ensures
        state_wf(push_step(st, seq![c]).0),
        out_jamo(push_step(st, seq![c]).1) + state_jamo(push_step(st, seq![c]).0) == state_jamo(st).push(c),
{
    assert(spec_is_single_jamo(seq![c]) == Some(c));
    lemma_tables_are_jamo();
    lemma_position_from(choseong(), c, 0);
    lemma_position_from(jungseong(), c, 0);
    lemma_position_from(jongseong(), c, 0);
    assert(char_jamo(c) == seq![c]);
    match st {
        BufState::Empty => {
            if spec_cho_index(c) is None {
                lemma_text_jamo_plain(seq![c]);
            }
        },
        BufState::Cho(pc) => {
            if spec_jung_index(c) is Some {
                lemma_syllable_jamo(pc as int, spec_jung_index(c)->0, 0);
            } else if spec_cho_index(c) is Some {
                lemma_text_jamo_plain(seq![choseong()[pc as int]]);
            } else {
                lemma_text_jamo_plain(seq![choseong()[pc as int], c]);
            }
        },
        BufState::ChoJung(pc, pj) => {
            let s = syllable(pc as int, pj as int, 0);
            lemma_syllable_jamo(pc as int, pj as int, 0);
            if spec_jong_index(c) is Some {
                lemma_syllable_jamo(pc as int, pj as int, spec_jong_index(c)->0);
            } else if spec_cho_index(c) is Some {
                lemma_text_jamo_one(s);
            } else {
                lemma_text_jamo_append(seq![s], seq![c]);
                lemma_text_jamo_one(s);
                lemma_text_jamo_plain(seq![c]);
                assert(seq![s] + seq![c] =~= seq![s, c]);
            }
        },
        BufState::ChoJungJong(pc, pj, pk) => {
            lemma_syllable_jamo(pc as int, pj as int, 0);
            lemma_syllable_jamo(pc as int, pj as int, pk as int);
            let s0 = syllable(pc as int, pj as int, 0);
            let s = syllable(pc as int, pj as int, pk as int);
            lemma_text_jamo_one(s0);
            lemma_text_jamo_one(s);
            if spec_jung_index(c) is Some {
                lemma_position_from(choseong(), jongseong()[pk - 1], 0);
                match spec_jong_to_cho(pk as int) {
                    Some(nc) => {},
                    None => {
                        let t = seq![jongseong()[pk - 1], c];
                        lemma_text_jamo_plain(t);
                        lemma_text_jamo_append(seq![s0], t);
                        assert(seq![s0] + t =~= seq![s0, jongseong()[pk - 1], c]);
                    },
                }
            } else if spec_cho_index(c) is Some {
            } else {
                lemma_text_jamo_append(seq![s], seq![c]);
                lemma_text_jamo_plain(seq![c]);
                assert(seq![s] + seq![c] =~= seq![s, c]);
            }
        },
    }
    assert(out_jamo(jamo_step(st, c).1) + state_jamo(jamo_step(st, c).0) =~= state_jamo(st).push(c));
}

/// Flushing writes out every jamo the buffer holds, in order.
pub proof fn lemma_flush_writes_every_jamo(st: BufState)
    requires
        state_wf(st),
    ensures
        out_jamo(pending_text(st)) == state_jamo(st),
{
    lemma_tables_are_jamo();
    match st {
        BufState::Empty => {},
        BufState::Cho(c) => {
            lemma_text_jamo_plain(seq![choseong()[c as int]]);
        },
        BufState::ChoJung(c, j) => {
            lemma_text_jamo_one(syllable(c as int, j as int, 0));
            lemma_syllable_jamo(c as int, j as int, 0);
            assert(state_jamo(st) =~= seq![choseong()[c as int], jungseong()[j as int]] + Seq::<char>::empty());
        },
        BufState::ChoJungJong(c, j, k) => {
            lemma_text_jamo_one(syllable(c as int, j as int, k as int));
            lemma_syllable_jamo(c as int, j as int, k as int);
            assert(state_jamo(st) =~= seq![choseong()[c as int], jungseong()[j as int]] + seq![jongseong()[k - 1]]);
        },
    }
}

/// Text that is not a single jamo writes out every jamo the buffer holds,
/// then the text itself, and leaves the buffer empty.
pub proof fn lemma_other_text_passes_through(st: BufState, text: Seq<char>)
    requires
        state_wf(st),
        spec_is_single_jamo(text) is None,
    ensures
        push_step(st, text).0 == BufState::Empty,
        out_jamo(push_step(st, text).1) == state_jamo(st) + text_jamo(text),
{
    lemma_flush_writes_every_jamo(st);
    let flushed = match pending_text(st) {
        Some(p) => p,
        None => Seq::empty(),
    };
    lemma_text_jamo_append(flushed, text);
    if pending_text(st) is None {
        assert(text_jamo(Seq::<char>::empty()) =~= Seq::<char>::empty());
    }
}

/// An initial consonant and then a vowel, pushed one at a time, compose:
/// nothing comes out yet, and what is pending is their syllable.
pub proof fn lemma_initial_then_medial_compose(c: char, v: char)
    requires
        spec_is_single_jamo(seq![c]) is Some,
        spec_is_single_jamo(seq![v]) is Some,
        spec_cho_index(c) is Some,
        spec_jung_index(v) is Some,
    ensures
        ({
            let a = push_step(BufState::Empty, seq![c]);
            let b = push_step(a.0, seq![v]);
            &&& a.1 is None
            &&& b.1 is None
            &&& pending_text(b.0) == Some(
                seq![syllable(spec_cho_index(c)->0, spec_jung_index(v)->0, 0)],
            )
        }),
{
    lemma_position_from(choseong(), c, 0);
    lemma_position_from(jungseong(), v, 0);
    assert(seq![c][0] == c);
    assert(seq![v][0] == v);
}

/// A final consonant after an initial and a vowel stays pending with them:
/// what is pending is the three-part syllable.
pub proof fn lemma_final_joins_syllable(c: char, v: char, k: char)
    requires
        spec_is_single_jamo(seq![c]) is Some,
        spec_is_single_jamo(seq![v]) is Some,
        spec_is_single_jamo(seq![k]) is Some,
        spec_cho_index(c) is Some,
        spec_jung_index(v) is Some,
        spec_jong_index(k) is Some,
    ensures
        ({
            let a = push_step(BufState::Empty, seq![c]);
            let b = push_step(a.0, seq![v]);
            let d = push_step(b.0, seq![k]);
            &&& d.1 is None
            &&& pending_text(d.0) == Some(
                seq![syllable(spec_cho_index(c)->0, spec_jung_index(v)->0, spec_jong_index(k)->0)],
            )
        }),
{
    lemma_initial_then_medial_compose(c, v);
    lemma_position_from(choseong(), c, 0);
    lemma_position_from(jungseong(), v, 0);
    lemma_position_from(jongseong(), k, 0);
    assert(seq![k][0] == k);
    let ci = spec_cho_index(c)->0;
    let ji = spec_jung_index(v)->0;
    let ki = spec_jong_index(k)->0;
    assert(0 <= ci < 19 && 0 <= ji < 21 && 1 <= ki <= 27);
    let a = push_step(BufState::Empty, seq![c]);
    assert(a.0 == BufState::Cho(ci as u32));
    let b = push_step(a.0, seq![v]);
    assert(b.0 == BufState::ChoJung(ci as u32, ji as u32));
    let d = push_step(b.0, seq![k]);
    assert(spec_jong_index(k) is Some);
    assert(d.0 == BufState::ChoJungJong(ci as u32, ji as u32, ki as u32));
}

/// A final consonant followed by a vowel moves on to start the next
/// syllable: the syllable without it comes out, and the consonant (as an
/// initial) and the vowel are pending.
pub proof fn lemma_final_moves_to_next_syllable(c: char, v: char, k: char, v2: char)
    requires
        spec_is_single_jamo(seq![c]) is Some,
        spec_is_single_jamo(seq![v]) is Some,
        spec_is_single_jamo(seq![k]) is Some,
        spec_is_single_jamo(seq![v2]) is Some,
        spec_cho_index(c) is Some,
        spec_jung_index(v) is Some,
        spec_jong_index(k) is Some,
        spec_cho_index(k) is Some,
        spec_jung_index(v2) is Some,
    ensures
        ({
            let a = push_step(BufState::Empty, seq![c]);
            let b = push_step(a.0, seq![v]);
            let d = push_step(b.0, seq![k]);
            let e = push_step(d.0, seq![v2]);
            &&& e.1 == Some(seq![syllable(spec_cho_index(c)->0, spec_jung_index(v)->0, 0)])
            &&& pending_text(e.0) == Some(
                seq![syllable(spec_cho_index(k)->0, spec_jung_index(v2)->0, 0)],
            )
        }),
{
    lemma_final_joins_syllable(c, v, k);
    lemma_position_from(choseong(), c, 0);
    lemma_position_from(jungseong(), v, 0);
    lemma_position_from(jongseong(), k, 0);
    lemma_position_from(choseong(), k, 0);
    assert(seq![c][0] == c);
    assert(seq![v][0] == v);
    assert(seq![k][0] == k);
    let ci = spec_cho_index(c)->0;
    let ji = spec_jung_index(v)->0;
    let ki = spec_jong_index(k)->0;
    let a = push_step(BufState::Empty, seq![c]);
    assert(a.0 == BufState::Cho(ci as u32));
    let b = push_step(a.0, seq![v]);
    assert(b.0 == BufState::ChoJung(ci as u32, ji as u32));
    let d = push_step(b.0, seq![k]);
    assert(d.0 == BufState::ChoJungJong(ci as u32, ji as u32, ki as u32));
    lemma_position_from(jungseong(), v2, 0);
    lemma_position_from(jungseong(), k, 0);
    assert(seq![v2][0] == v2);
    assert(jongseong()[ki - 1] == k);
    assert(spec_jong_to_cho(ki) == spec_cho_index(k));
    let nc = spec_cho_index(k)->0;
    let j2 = spec_jung_index(v2)->0;
    assert(0 <= nc < 19 && 0 <= j2 < 21);
    let e = push_step(d.0, seq![v2]);
    assert(e.0 == BufState::ChoJung(nc as u32, j2 as u32));
}

} // verus!
