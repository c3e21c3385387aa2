//! Queries and keyboard-protocol controls that programs write to the
//! terminal, picked out of the PTY output, and the answers to the queries.
use vstd::prelude::*;
use crate::text::{decimal, push_decimal, push_str};

verus! {

#[derive(Debug, Clone, Copy, PartialEq, Eq, Structural)]
pub enum TerminalQuery {
    CursorPositionReport,
    PrimaryDeviceAttributes,
    SecondaryDeviceAttributes,
    KittyKeyboardQuery,
    ForegroundColorQuery,
    BackgroundColorQuery,
    RequestStatusStringSgr,
}

#[derive(Debug, Clone, Copy, PartialEq, Eq, Structural)]
pub enum TerminalControl {
    Query(TerminalQuery),
    KittyKeyboardPush(u16),
    KittyKeyboardPop(u16),
}

/// The outcome of reading one control at the start of some bytes.
#[derive(Debug, Clone, Copy, PartialEq, Eq, Structural)]
pub enum SequenceParse {
    /// The control and how many bytes it took.
    Matched(TerminalControl, usize),
    /// The bytes could still grow into a control.
    NeedMore,
    NoMatch,
}

pub const ESC: u8 = 0x1b;

/// The fixed query sequences, in the order they are tried, with the query
/// each one asks.
pub open spec fn query_patterns() -> Seq<(Seq<u8>, TerminalQuery)> {
    seq![
        (seq![ESC, 0x5b, 0x36, 0x6e], TerminalQuery::CursorPositionReport),
        (seq![ESC, 0x5b, 0x3f, 0x75], TerminalQuery::KittyKeyboardQuery),
        (seq![ESC, 0x5b, 0x63], TerminalQuery::PrimaryDeviceAttributes),
        (seq![ESC, 0x5b, 0x3e, 0x63], TerminalQuery::SecondaryDeviceAttributes),
        (seq![ESC, 0x5b, 0x3e, 0x30, 0x63], TerminalQuery::SecondaryDeviceAttributes),
        (seq![ESC, 0x5d, 0x31, 0x30, 0x3b, 0x3f, ESC, 0x5c], TerminalQuery::ForegroundColorQuery),
        (seq![ESC, 0x5d, 0x31, 0x30, 0x3b, 0x3f, 0x07], TerminalQuery::ForegroundColorQuery),
        (seq![ESC, 0x5d, 0x31, 0x31, 0x3b, 0x3f, ESC, 0x5c], TerminalQuery::BackgroundColorQuery),
        (seq![ESC, 0x5d, 0x31, 0x31, 0x3b, 0x3f, 0x07], TerminalQuery::BackgroundColorQuery),
        (seq![ESC, 0x50, 0x24, 0x71, 0x6d, ESC, 0x5c], TerminalQuery::RequestStatusStringSgr),
    ]
}

/// The outcome of reading one control, as a value of the specification.
pub enum ParseOutcome {
    Matched(TerminalControl, nat),
    NeedMore,
    NoMatch,
}

/// The first fixed query sequence, from index `k` on, that `rest` starts with.
pub open spec fn match_query_from(rest: Seq<u8>, k: int) -> Option<(TerminalQuery, int)>
    decreases query_patterns().len() - k,
{
    if k < 0 || k >= query_patterns().len() {
        None
    } else if query_patterns()[k].0.is_prefix_of(rest) {
        Some((query_patterns()[k].1, query_patterns()[k].0.len() as int))
    } else {
        match_query_from(rest, k + 1)
    }
}

/// A matched query sequence fits in what it was matched against.
pub proof fn lemma_match_query_len(rest: Seq<u8>, k: int)
    requires
        0 <= k,
    ensures
        match_query_from(rest, k) matches Some((_, n)) ==> 0 < n <= rest.len(),
    decreases query_patterns().len() - k,
{
    if k < query_patterns().len() {
        if query_patterns()[k].0.is_prefix_of(rest) {
            lemma_query_patterns_nonempty();
        } else {
            lemma_match_query_len(rest, k + 1);
        }
    }
}

pub proof fn lemma_query_patterns_nonempty()
    ensures
        query_patterns().len() == 10,
        forall|k: int| 0 <= k < 10 ==> #[trigger] query_patterns()[k].0.len() >= 3,
{
    let q = query_patterns();
    assert(q[0].0.len() == 4);
    assert(q[1].0.len() == 4);
    assert(q[2].0.len() == 3);
    assert(q[3].0.len() == 4);
    assert(q[4].0.len() == 5);
    assert(q[5].0.len() == 8);
    assert(q[6].0.len() == 7);
    assert(q[7].0.len() == 8);
    assert(q[8].0.len() == 7);
    assert(q[9].0.len() == 7);
}

/// Whether `rest` is the beginning of a fixed query sequence.
pub open spec fn is_query_prefix(rest: Seq<u8>) -> bool {
    exists|k: int| 0 <= k < query_patterns().len() && rest.is_prefix_of(#[trigger] query_patterns()[k].0)
}

pub open spec fn is_digit(b: u8) -> bool {
    0x30 <= b <= 0x39
}

/// The first index at or after `i` that does not hold a digit (or the length).
pub open spec fn digits_end(s: Seq<u8>, i: int) -> int
    decreases s.len() - i,
{
    if i < 0 || i >= s.len() || !is_digit(s[i]) {
        if i < 0 { 0 } else { i }
    } else {
        digits_end(s, i + 1)
    }
}

/// The value of a run of decimal digits.
pub open spec fn digits_value(s: Seq<u8>) -> nat
    decreases s.len(),
{
    if s.len() == 0 {
        0
    } else {
        digits_value(s.drop_last()) * 10 + (s.last() - 0x30) as nat
    }
}

/// The digits of a number written with an optional leading `+`.
pub open spec fn unsigned_body(s: Seq<u8>) -> Seq<u8> {
    if s.len() > 0 && s[0] == 0x2b { s.drop_first() } else { s }
}

/// What `str::parse::<u32>` accepts: an optional `+`, then one or more digits.
pub open spec fn parses_as_u32(s: Seq<u8>) -> bool {
    &&& unsigned_body(s).len() > 0
    &&& forall|i: int| 0 <= i < unsigned_body(s).len() ==> is_digit(#[trigger] unsigned_body(s)[i])
    &&& digits_value(unsigned_body(s)) <= u32::MAX
}

/// The bytes read as a `u32`, capped at `u16::MAX`, and 0 when they do not
/// read as a `u32` at all.
pub open spec fn spec_parse_u16_saturating(s: Seq<u8>) -> u16 {
    if parses_as_u32(s) {
        let v = digits_value(unsigned_body(s));
        if v <= u16::MAX { v as u16 } else { u16::MAX }
    } else {
        0
    }
}

/// Reads a kitty keyboard push (`ESC [ > n u`) or pop (`ESC [ < n u`) at the
/// start of `rest`.
pub open spec fn spec_parse_kitty(rest: Seq<u8>) -> ParseOutcome {
    if !seq![ESC, 0x5bu8].is_prefix_of(rest) {
        ParseOutcome::NoMatch
    } else if rest.len() < 3 {
        ParseOutcome::NeedMore
    } else if rest[2] != 0x3e && rest[2] != 0x3c {
        ParseOutcome::NoMatch
    } else if rest.len() == 3 {
        ParseOutcome::NeedMore
    } else {
        let idx = digits_end(rest, 3);
        let digits = rest.subrange(3, idx);
        if idx == rest.len() {
            ParseOutcome::NeedMore
        } else if rest[idx] != 0x75 {
            ParseOutcome::NoMatch
        } else if rest[2] == 0x3e && digits.len() == 0 {
            ParseOutcome::NoMatch
        } else {
            let value: u16 = if digits.len() == 0 { 1 } else { spec_parse_u16_saturating(digits) };
            let control = if rest[2] == 0x3e {
                TerminalControl::KittyKeyboardPush(value)
            } else {
                TerminalControl::KittyKeyboardPop(value)
            };
            ParseOutcome::Matched(control, (idx + 1) as nat)
        }
    }
}

pub proof fn lemma_digits_end(s: Seq<u8>, i: int)
    requires
        0 <= i <= s.len(),
    ensures
        i <= digits_end(s, i) <= s.len(),
        forall|j: int| i <= j < digits_end(s, i) ==> is_digit(#[trigger] s[j]),
        digits_end(s, i) < s.len() ==> !is_digit(s[digits_end(s, i)]),
    decreases s.len() - i,
{
    if i < s.len() && is_digit(s[i]) {
        lemma_digits_end(s, i + 1);
    }
}

/// A matched kitty control is at least four bytes and fits in its input.
pub proof fn lemma_parse_kitty_len(rest: Seq<u8>)
    ensures
        spec_parse_kitty(rest) matches ParseOutcome::Matched(_, n) ==> 4 <= n <= rest.len(),
{
    if rest.len() > 3 {
        lemma_digits_end(rest, 3);
    }
}

/// Whether `rest` counts as the unfinished start of a kitty keyboard push or
/// pop: only the lead-in `ESC [` itself, or a part of it, does. (A longer
/// start that can still grow is caught as "needs more" when it is read.)
pub open spec fn is_kitty_prefix(rest: Seq<u8>) -> bool {
    rest.is_prefix_of(seq![ESC, 0x5bu8])
}

/// Whether `rest` could still grow into a control that is recognised.
pub open spec fn spec_is_known_control_prefix(rest: Seq<u8>) -> bool {
    is_query_prefix(rest) || is_kitty_prefix(rest)
}

/// Scans `p` from index `i`: the controls found, and where the unfinished
/// control that must wait for more bytes begins, if there is one.
pub open spec fn scan(p: Seq<u8>, i: int) -> (Seq<TerminalControl>, Option<int>)
    decreases p.len() - i,
{
    if i < 0 || i >= p.len() {
        (Seq::empty(), None)
    } else if p[i] != ESC {
        scan(p, i + 1)
    } else {
        let rest = p.subrange(i, p.len() as int);
        match match_query_from(rest, 0) {
            Some((q, n)) => {
                proof { lemma_match_query_len(rest, 0); }
                let tail = scan(p, i + n);
                (seq![TerminalControl::Query(q)] + tail.0, tail.1)
            },
            None => match spec_parse_kitty(rest) {
                ParseOutcome::Matched(c, n) => {
                    proof { lemma_parse_kitty_len(rest); }
                    let tail = scan(p, i + n);
                    (seq![c] + tail.0, tail.1)
                },
                ParseOutcome::NeedMore => (Seq::empty(), Some(i)),
                ParseOutcome::NoMatch => {
                    if spec_is_known_control_prefix(rest) {
                        (Seq::empty(), Some(i))
                    } else {
                        scan(p, i + 1)
                    }
                },
            },
        }
    }
}

/// What stays pending after a scan: the unfinished control on, or nothing.
pub open spec fn scan_remainder(p: Seq<u8>) -> Seq<u8> {
    match scan(p, 0).1 {
        Some(k) => p.subrange(k, p.len() as int),
        None => Seq::empty(),
    }
}

/// The control complete at the start of `rest`, with its length, if any: a
/// fixed query sequence first, then a kitty push or pop.
pub open spec fn control_at(rest: Seq<u8>) -> Option<(TerminalControl, int)> {
    match match_query_from(rest, 0) {
        Some((q, n)) => Some((TerminalControl::Query(q), n)),
        None => match spec_parse_kitty(rest) {
            ParseOutcome::Matched(c, n) => Some((c, n as int)),
            _ => None,
        },
    }
}

/// Whether `rest` is an unfinished control: none is complete at its start,
/// and it can still grow into one.
pub open spec fn unfinished(rest: Seq<u8>) -> bool {
    &&& control_at(rest) is None
    &&& (spec_parse_kitty(rest) is NeedMore || spec_is_known_control_prefix(rest))
}

/// Where the controls that `scan(p, i)` finds begin.
pub open spec fn scan_positions(p: Seq<u8>, i: int) -> Seq<int>
    decreases p.len() - i,
{
    if i < 0 || i >= p.len() {
        Seq::empty()
    } else if p[i] != ESC {
        scan_positions(p, i + 1)
    } else {
        let rest = p.subrange(i, p.len() as int);
        match match_query_from(rest, 0) {
            Some((q, n)) => {
                proof { lemma_match_query_len(rest, 0); }
                seq![i] + scan_positions(p, i + n)
            },
            None => match spec_parse_kitty(rest) {
                ParseOutcome::Matched(c, n) => {
                    proof { lemma_parse_kitty_len(rest); }
                    seq![i] + scan_positions(p, i + n)
                },
                ParseOutcome::NeedMore => Seq::empty(),
                ParseOutcome::NoMatch => {
                    if spec_is_known_control_prefix(rest) {
                        Seq::empty()
                    } else {
                        scan_positions(p, i + 1)
                    }
                },
            },
        }
    }
}

/// What a scan finds: each control it lists is complete at an escape byte
/// of the input, the controls come in input order without overlapping, and
/// nothing else yields one; what it leaves pending starts at an escape byte
/// after them all, with an unfinished control that runs to the end.
pub proof fn lemma_scan_characterised(p: Seq<u8>, i: int)
    requires
        0 <= i <= p.len(),
    ensures
        scan_positions(p, i).len() == scan(p, i).0.len(),
        forall|j: int|
            #![trigger scan_positions(p, i)[j]]
            0 <= j < scan_positions(p, i).len() ==> {
                let k = scan_positions(p, i)[j];
                &&& i <= k < p.len()
                &&& p[k] == ESC
                &&& control_at(p.subrange(k, p.len() as int)) matches Some((c, n)) && c == scan(p, i).0[j]
                    && k + n <= p.len()
                    && (j + 1 < scan_positions(p, i).len() ==> k + n <= scan_positions(p, i)[j + 1])
            },
        scan(p, i).1 matches Some(k) ==> {
            &&& i <= k < p.len()
            &&& p[k] == ESC
            &&& unfinished(p.subrange(k, p.len() as int))
            &&& forall|j: int| 0 <= j < scan_positions(p, i).len() ==> #[trigger] scan_positions(p, i)[j] < k
        },
    decreases p.len() - i,
{
    if i >= p.len() {
    } else if p[i] != ESC {
        lemma_scan_characterised(p, i + 1);
    } else {
        let rest = p.subrange(i, p.len() as int);
        lemma_match_query_len(rest, 0);
        lemma_parse_kitty_len(rest);
        match match_query_from(rest, 0) {
            Some((q, n)) => {
                lemma_scan_characterised(p, i + n);
                let tail = scan_positions(p, i + n);
                assert(scan_positions(p, i) == seq![i] + tail);
                assert(scan(p, i).0 == seq![TerminalControl::Query(q)] + scan(p, i + n).0);
                assert forall|j: int| 0 <= j < tail.len() implies #[trigger] tail[j] >= i + n by {
                    assert(i + n <= tail[j]);
                }
            },
            None => match spec_parse_kitty(rest) {
                ParseOutcome::Matched(c, n) => {
                    lemma_scan_characterised(p, i + n as int);
                    let tail = scan_positions(p, i + n);
                    assert(scan_positions(p, i) == seq![i] + tail);
                    assert(scan(p, i).0 == seq![c] + scan(p, i + n).0);
                    assert forall|j: int| 0 <= j < tail.len() implies #[trigger] tail[j] >= i + n by {
                        assert(i + n <= tail[j]);
                    }
                },
                ParseOutcome::NeedMore => {},
                ParseOutcome::NoMatch => {
                    if !spec_is_known_control_prefix(rest) {
                        lemma_scan_characterised(p, i + 1);
                    }
                },
            },
        }
    }
}

/// Whether `p[i..]` starts with `pat`.
fn starts_with_at(p: &Vec<u8>, i: usize, pat: &[u8]) -> (b: bool)
    requires
        i <= p.len(),
    ensures
        b == pat@.is_prefix_of(p@.subrange(i as int, p.len() as int)),
{
    if p.len() - i < pat.len() {
        return false;
    }
    let mut k: usize = 0;
    while k < pat.len()
        invariant
            k <= pat.len(),
            i + pat.len() <= p.len(),
            forall|j: int| 0 <= j < k ==> pat@[j] == p@[i + j],
        decreases pat.len() - k,
    {
        if pat[k] != p[i + k] {
            assert(pat@[k as int] != p@.subrange(i as int, p.len() as int)[k as int]);
            return false;
        }
        k = k + 1;
    }
    assert(pat@ =~= p@.subrange(i as int, p.len() as int).subrange(0, pat@.len() as int));
    true
}

/// The fixed query sequence `k` (0..10) and its query.
fn query_pattern(k: usize) -> (r: (Vec<u8>, TerminalQuery))
    requires
        k < 10,
    ensures
        r.0@ == query_patterns()[k as int].0,
        r.1 == query_patterns()[k as int].1,
{
    if k == 0 {
        (vec![ESC, 0x5b, 0x36, 0x6e], TerminalQuery::CursorPositionReport)
    } else if k == 1 {
        (vec![ESC, 0x5b, 0x3f, 0x75], TerminalQuery::KittyKeyboardQuery)
    } else if k == 2 {
        (vec![ESC, 0x5b, 0x63], TerminalQuery::PrimaryDeviceAttributes)
    } else if k == 3 {
        (vec![ESC, 0x5b, 0x3e, 0x63], TerminalQuery::SecondaryDeviceAttributes)
    } else if k == 4 {
        (vec![ESC, 0x5b, 0x3e, 0x30, 0x63], TerminalQuery::SecondaryDeviceAttributes)
    } else if k == 5 {
        (vec![ESC, 0x5d, 0x31, 0x30, 0x3b, 0x3f, ESC, 0x5c], TerminalQuery::ForegroundColorQuery)
    } else if k == 6 {
        (vec![ESC, 0x5d, 0x31, 0x30, 0x3b, 0x3f, 0x07], TerminalQuery::ForegroundColorQuery)
    } else if k == 7 {
        (vec![ESC, 0x5d, 0x31, 0x31, 0x3b, 0x3f, ESC, 0x5c], TerminalQuery::BackgroundColorQuery)
    } else if k == 8 {
        (vec![ESC, 0x5d, 0x31, 0x31, 0x3b, 0x3f, 0x07], TerminalQuery::BackgroundColorQuery)
    } else {
        (vec![ESC, 0x50, 0x24, 0x71, 0x6d, ESC, 0x5c], TerminalQuery::RequestStatusStringSgr)
    }
}

/// The fixed query sequence that `p[i..]` starts with, if any.
fn match_query_at(p: &Vec<u8>, i: usize) -> (r: Option<(TerminalQuery, usize)>)
    requires
        i <= p.len(),
    ensures
        match r {
            Some((q, n)) => match_query_from(p@.subrange(i as int, p.len() as int), 0) == Some(
                (q, n as int),
            ),
            None => match_query_from(p@.subrange(i as int, p.len() as int), 0) is None,
        },
{
    let ghost rest = p@.subrange(i as int, p.len() as int);
    let mut k: usize = 0;
    while k < 10
        invariant
            k <= 10,
            i <= p.len(),
            rest == p@.subrange(i as int, p.len() as int),
            match_query_from(rest, 0) == match_query_from(rest, k as int),
        decreases 10 - k,
    {
        let (pat, q) = query_pattern(k);
        if starts_with_at(p, i, pat.as_slice()) {
            return Some((q, pat.len()));
        }
        k = k + 1;
    }
    None
}

/// Whether `rest` is the beginning of a fixed query sequence.
fn is_query_prefix_exec(rest: &[u8]) -> (b: bool)
    ensures
        b == is_query_prefix(rest@),
{
    let mut k: usize = 0;
    while k < 10
        invariant
            k <= 10,
            forall|j: int| 0 <= j < k ==> !rest@.is_prefix_of(#[trigger] query_patterns()[j].0),
        decreases 10 - k,
    {
        let (pat, _q) = query_pattern(k);
        if rest.len() <= pat.len() {
            let mut j: usize = 0;
            let mut all = true;
            while j < rest.len()
                invariant
                    j <= rest.len() <= pat.len(),
                    all == forall|m: int| 0 <= m < j ==> rest@[m] == pat@[m],
                decreases rest.len() - j,
            {
                if rest[j] != pat[j] {
                    all = false;
                }
                j = j + 1;
            }
            if all {
                assert(rest@ =~= pat@.subrange(0, rest@.len() as int));
                return true;
            }
            assert(!rest@.is_prefix_of(pat@)) by {
                if rest@.is_prefix_of(pat@) {
                    assert forall|m: int| 0 <= m < rest.len() implies rest@[m] == pat@[m] by {
                        assert(rest@[m] == pat@.subrange(0, rest@.len() as int)[m]);
                    }
                }
            }
        }
        k = k + 1;
    }
    false
}

/// Whether `rest` counts as the unfinished start of a kitty keyboard push or
/// pop: a part of the lead-in `ESC [`, at most two bytes.
fn is_kitty_keyboard_control_prefix(rest: &[u8]) -> (b: bool)
    ensures
        b == is_kitty_prefix(rest@),
{
    let lead: [u8; 2] = [ESC, 0x5b];
    assert(lead@ == seq![ESC, 0x5bu8]);
    if rest.len() > 2 {
        return false;
    }
    let mut j: usize = 0;
    while j < rest.len()
        invariant
            j <= rest.len() <= 2,
            lead@ == seq![ESC, 0x5bu8],
            forall|m: int| 0 <= m < j ==> rest@[m] == lead@[m],
        decreases rest.len() - j,
    {
        if rest[j] != lead[j] {
            assert(!rest@.is_prefix_of(seq![ESC, 0x5bu8])) by {
                if rest@.is_prefix_of(seq![ESC, 0x5bu8]) {
                    assert(rest@[j as int] == seq![ESC, 0x5bu8].subrange(0, rest@.len() as int)[j as int]);
                }
            }
            return false;
        }
        j = j + 1;
    }
    assert(rest@ =~= seq![ESC, 0x5bu8].subrange(0, rest@.len() as int));
    true
}

/// Whether `rest` could still grow into a control that is recognised.
pub fn is_known_control_prefix(rest: &[u8]) -> (b: bool)
    ensures
        b == spec_is_known_control_prefix(rest@),
{
    is_query_prefix_exec(rest) || is_kitty_keyboard_control_prefix(rest)
}

/// The decimal value of `s[..i+1]` extends that of `s[..i]`.
proof fn lemma_digits_value_take(s: Seq<u8>, i: int)
    requires
        0 <= i < s.len(),
    ensures
        digits_value(s.take(i + 1)) == digits_value(s.take(i)) * 10 + (s[i] - 0x30) as nat,
{
    assert(s.take(i + 1).drop_last() =~= s.take(i));
}

/// A longer run of digits is worth at least as much.
proof fn lemma_digits_value_mono(s: Seq<u8>, i: int)
    requires
        0 <= i <= s.len(),
        forall|j: int| 0 <= j < s.len() ==> is_digit(#[trigger] s[j]),
    ensures
        digits_value(s.take(i)) <= digits_value(s),
    decreases s.len() - i,
{
    if i < s.len() {
        lemma_digits_value_take(s, i);
        lemma_digits_value_mono(s, i + 1);
    } else {
        assert(s.take(i) =~= s);
    }
}

/// Reads bytes as a `u32`, capped at `u16::MAX`; 0 when they are not a
/// `u32` at all.
pub fn parse_u16_saturating(bytes: &[u8]) -> (v: u16)
    ensures
        v == spec_parse_u16_saturating(bytes@),
{
    let start: usize = if bytes.len() > 0 && bytes[0] == 0x2b { 1 } else { 0 };
    let ghost body = unsigned_body(bytes@);
    assert(body =~= bytes@.subrange(start as int, bytes@.len() as int));
    if start == bytes.len() {
        return 0;
    }
    let mut value: u64 = 0;
    let mut i: usize = start;
    while i < bytes.len()
        invariant
            start <= i <= bytes.len(),
            body == bytes@.subrange(start as int, bytes@.len() as int),
            body == unsigned_body(bytes@),
            forall|j: int| start <= j < i ==> is_digit(#[trigger] bytes@[j]),
            value == digits_value(body.take(i - start)),
            value <= u32::MAX,
        decreases bytes.len() - i,
    {
        let b = bytes[i];
        if !(0x30 <= b && b <= 0x39) {
            assert(body[i - start] == b);
            assert(!parses_as_u32(bytes@)) by {
                assert(!is_digit(body[i - start]));
            }
            return 0;
        }
        proof { lemma_digits_value_take(body, i - start); }
        value = value * 10 + (b - 0x30) as u64;
        if value > 0xFFFF_FFFF {
            assert(!parses_as_u32(bytes@)) by {
                if forall|j: int| 0 <= j < body.len() ==> is_digit(#[trigger] body[j]) {
                    lemma_digits_value_mono(body, i + 1 - start);
                }
            }
            return 0;
        }
        i = i + 1;
    }
    assert(body.take(i - start) =~= body);
    assert forall|j: int| 0 <= j < body.len() implies is_digit(#[trigger] body[j]) by {
        assert(body[j] == bytes@[j + start]);
    }
    if value > 0xFFFF { 0xFFFF } else { value as u16 }
}

/// The first index at or after `i` of `s` that is not a digit.
fn find_digits_end(s: &[u8], i: usize) -> (e: usize)
    requires
        i <= s.len(),
    ensures
        e == digits_end(s@, i as int),
        i <= e <= s.len(),
        forall|j: int| i <= j < e ==> is_digit(#[trigger] s@[j]),
{
    let mut k = i;
    while k < s.len() && 0x30 <= s[k] && s[k] <= 0x39
        invariant
            i <= k <= s.len(),
            digits_end(s@, i as int) == digits_end(s@, k as int),
            forall|j: int| i <= j < k ==> is_digit(#[trigger] s@[j]),
        decreases s.len() - k,
    {
        k = k + 1;
    }
    k
}

/// Reads a kitty keyboard push or pop at the start of `rest`.
pub fn parse_kitty_keyboard_control(rest: &[u8]) -> (r: SequenceParse)
    ensures
        match r {
            SequenceParse::Matched(c, n) => spec_parse_kitty(rest@) == ParseOutcome::Matched(c, n as nat),
            SequenceParse::NeedMore => spec_parse_kitty(rest@) == ParseOutcome::NeedMore,
            SequenceParse::NoMatch => spec_parse_kitty(rest@) == ParseOutcome::NoMatch,
        },
        r matches SequenceParse::Matched(_, n) ==> 4 <= n <= rest.len(),
{
    if rest.len() < 2 || rest[0] != ESC || rest[1] != 0x5b {
        assert(!seq![ESC, 0x5bu8].is_prefix_of(rest@)) by {
            if seq![ESC, 0x5bu8].is_prefix_of(rest@) {
                assert(rest@.subrange(0, 2)[0] == ESC);
                assert(rest@.subrange(0, 2)[1] == 0x5b);
            }
        }
        return SequenceParse::NoMatch;
    }
    assert(seq![ESC, 0x5bu8] =~= rest@.subrange(0, 2));
    if rest.len() < 3 {
        return SequenceParse::NeedMore;
    }
    let mode = rest[2];
    if mode != 0x3e && mode != 0x3c {
        return SequenceParse::NoMatch;
    }
    if rest.len() == 3 {
        return SequenceParse::NeedMore;
    }
    let idx = find_digits_end(rest, 3);
    if idx == rest.len() {
        return SequenceParse::NeedMore;
    }
    if rest[idx] != 0x75 {
        return SequenceParse::NoMatch;
    }
    let digits = vstd::slice::slice_subrange(rest, 3, idx);
    if mode == 0x3e && digits.len() == 0 {
        return SequenceParse::NoMatch;
    }
    let value: u16 = if digits.len() == 0 { 1 } else { parse_u16_saturating(digits) };
    let control = if mode == 0x3e {
        TerminalControl::KittyKeyboardPush(value)
    } else {
        TerminalControl::KittyKeyboardPop(value)
    };
    SequenceParse::Matched(control, idx + 1)
}

/// Picks the controls out of `pending` (PTY output gathered so far) and keeps
/// in it only an unfinished control that more output may complete.
pub fn extract_terminal_controls(pending: &mut Vec<u8>) -> (controls: Vec<TerminalControl>)
    ensures
        controls@ == scan(old(pending)@, 0).0,
        final(pending)@ == scan_remainder(old(pending)@),
{
    let mut controls: Vec<TerminalControl> = Vec::new();
    let mut i: usize = 0;
    let mut keep_from: Option<usize> = None;
    let ghost p = pending@;
    loop
        invariant_except_break
            i <= pending.len(),
            pending@ == p,
            keep_from is None,
            scan(p, 0).0 == controls@ + scan(p, i as int).0,
            scan(p, 0).1 == scan(p, i as int).1,
        ensures
            pending@ == p,
            scan(p, 0).0 == controls@,
            scan(p, 0).1 == match keep_from {
                Some(k) => Some(k as int),
                None => None,
            },
            match keep_from {
                Some(k) => k <= pending.len(),
                None => true,
            },
        decreases pending.len() - i,
    {
        if i >= pending.len() {
            assert(controls@ + Seq::<TerminalControl>::empty() == controls@);
            break;
        }
        if pending[i] != ESC {
            i += 1;
            continue;
        }
        let ghost rest = p.subrange(i as int, p.len() as int);
        if let Some((q, n)) = match_query_at(pending, i) {
            proof {
                lemma_match_query_len(rest, 0);
                let tail = scan(p, i + n);
                assert(scan(p, i as int) == (seq![TerminalControl::Query(q)] + tail.0, tail.1));
                assert(controls@ + scan(p, i as int).0 == controls@.push(TerminalControl::Query(q))
                    + tail.0);
            }
            controls.push(TerminalControl::Query(q));
            i += n;
            continue;
        }
        let tail_slice = vstd::slice::slice_subrange(pending.as_slice(), i, pending.len());
        assert(tail_slice@ == rest);
        match parse_kitty_keyboard_control(tail_slice) {
            SequenceParse::Matched(control, consumed) => {
                proof {
                    let tail = scan(p, i + consumed);
                    assert(scan(p, i as int) == (seq![control] + tail.0, tail.1));
                    assert(controls@ + scan(p, i as int).0 == controls@.push(control) + tail.0);
                }
                controls.push(control);
                i += consumed;
                continue;
            },
            SequenceParse::NeedMore => {
                keep_from = Some(i);
                assert(controls@ + Seq::<TerminalControl>::empty() == controls@);
                break;
            },
            SequenceParse::NoMatch => {},
        }
        if is_known_control_prefix(tail_slice) {
            keep_from = Some(i);
            assert(controls@ + Seq::<TerminalControl>::empty() == controls@);
            break;
        }
        i += 1;
    }
    match keep_from {
        Some(start) => {
            let kept = vstd::slice::slice_to_vec(vstd::slice::slice_subrange(pending.as_slice(), start, pending.len()));
            *pending = kept;
        },
        None => {
            pending.clear();
        },
    }
    controls
}

/// The answer the terminal writes back for a query.
pub open spec fn spec_query_response(query: TerminalQuery, cursor: (u16, u16), kitty_flags: u16) -> Seq<char> {
    match query {
        TerminalQuery::CursorPositionReport => {
            let row = if cursor.0 < u16::MAX { cursor.0 + 1 } else { u16::MAX as int };
            let col = if cursor.1 < u16::MAX { cursor.1 + 1 } else { u16::MAX as int };
            seq!['\x1b', '['] + decimal(row as nat) + seq![';'] + decimal(col as nat) + seq!['R']
        },
        TerminalQuery::PrimaryDeviceAttributes => "\x1b[?1;2c"@,
        TerminalQuery::SecondaryDeviceAttributes => "\x1b[>0;95;0c"@,
        TerminalQuery::KittyKeyboardQuery => seq!['\x1b', '[', '?'] + decimal(kitty_flags as nat) + seq!['u'],
        TerminalQuery::ForegroundColorQuery => "\x1b]10;rgb:cccc/cccc/cccc\x07"@,
        TerminalQuery::BackgroundColorQuery => "\x1b]11;rgb:0000/0000/0000\x07"@,
        TerminalQuery::RequestStatusStringSgr => "\x1bP1$r0m\x1b\\"@,
    }
}

pub fn encode_terminal_query_response(query: TerminalQuery, cursor: (u16, u16), kitty_keyboard_flags: u16) -> (s: String)
    ensures
        s@ == spec_query_response(query, cursor, kitty_keyboard_flags),
{
    match query {
        TerminalQuery::CursorPositionReport => {
            let row = cursor.0.saturating_add(1);
            let col = cursor.1.saturating_add(1);
            let mut s = String::from_str("\x1b[");
            push_decimal(&mut s, row as u64);
            push_str(&mut s, ";");
            push_decimal(&mut s, col as u64);
            push_str(&mut s, "R");
            proof {
                reveal_strlit("\x1b[");
                reveal_strlit(";");
                reveal_strlit("R");
            }
            s
        },
        TerminalQuery::PrimaryDeviceAttributes => String::from_str("\x1b[?1;2c"),
        TerminalQuery::SecondaryDeviceAttributes => String::from_str("\x1b[>0;95;0c"),
        TerminalQuery::KittyKeyboardQuery => {
            let mut s = String::from_str("\x1b[?");
            push_decimal(&mut s, kitty_keyboard_flags as u64);
            push_str(&mut s, "u");
            proof {
                reveal_strlit("\x1b[?");
                reveal_strlit("u");
            }
            s
        },
        TerminalQuery::ForegroundColorQuery => String::from_str("\x1b]10;rgb:cccc/cccc/cccc\x07"),
        TerminalQuery::BackgroundColorQuery => String::from_str("\x1b]11;rgb:0000/0000/0000\x07"),
        TerminalQuery::RequestStatusStringSgr => String::from_str("\x1bP1$r0m\x1b\\"),
    }
}

} // verus!
