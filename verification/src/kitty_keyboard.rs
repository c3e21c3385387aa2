//! The kitty keyboard protocol's flag stack, as a program running in the
//! terminal pushes and pops it, and the answers to the queries found in its
//! output.
use vstd::prelude::*;

use crate::terminal_controls::{
    encode_terminal_query_response, spec_query_response, TerminalControl,
};

verus! {

/// The current progressive-enhancement flags and the flags saved under them.
pub struct KittyKeyboard {
    pub flags: u16,
    pub stack: Vec<u16>,
}

/// The state of the flag stack: current flags, then the saved ones, the
/// most recently saved last.
pub type KittyState = (u16, Seq<u16>);

impl View for KittyKeyboard {
    type V = KittyState;

    open spec fn view(&self) -> KittyState {
        (self.flags, self.stack@)
    }
}

/// Pushing: the current flags are saved and `flags` take their place.
pub open spec fn push_spec(s: KittyState, flags: u16) -> KittyState {
    (flags, s.1.push(s.0))
}

/// Popping `count` entries (at least one): the flags saved that many pushes
/// ago come back; popping more than were pushed clears everything.
pub open spec fn pop_spec(s: KittyState, count: u16) -> KittyState {
    let k: int = if count == 0 { 1 } else { count as int };
    if k <= s.1.len() {
        (s.1[s.1.len() - k], s.1.take(s.1.len() - k))
    } else {
        (0, seq![])
    }
}

/// The state after one control; queries leave it alone.
pub open spec fn control_step(s: KittyState, c: TerminalControl) -> KittyState {
    match c {
        TerminalControl::Query(_) => s,
        TerminalControl::KittyKeyboardPush(f) => push_spec(s, f),
        TerminalControl::KittyKeyboardPop(n) => pop_spec(s, n),
    }
}

/// The state after the controls `cs` in order.
pub open spec fn controls_state(s: KittyState, cs: Seq<TerminalControl>) -> KittyState
    decreases cs.len(),
{
    if cs.len() == 0 {
        s
    } else {
        control_step(controls_state(s, cs.drop_last()), cs.last())
    }
}

/// The answers to the queries among `cs`, in order, each with the flags in
/// force when it came.
pub open spec fn controls_responses(s: KittyState, cs: Seq<TerminalControl>, cursor: (u16, u16)) -> Seq<
    Seq<char>,
>
    decreases cs.len(),
{
    if cs.len() == 0 {
        seq![]
    } else {
        let prev = controls_responses(s, cs.drop_last(), cursor);
        match cs.last() {
            TerminalControl::Query(q) => prev.push(
                spec_query_response(q, cursor, controls_state(s, cs.drop_last()).0),
            ),
            _ => prev,
        }
    }
}

/// After a push, one pop gives back the state from before the push.
pub proof fn lemma_push_then_pop_restores(s: KittyState, flags: u16)
    ensures
        pop_spec(push_spec(s, flags), 1) == s,
{
    assert(s.1.push(s.0).take(s.1.len() as int) =~= s.1);
}

/// Popping `a` entries and then `b` more is popping `a + b` at once, while
/// the stack holds that many.
pub proof fn lemma_pops_add_up(s: KittyState, a: u16, b: u16)
    requires
        1 <= a,
        1 <= b,
        a + b <= s.1.len(),
        a + b <= u16::MAX,
    ensures
        pop_spec(pop_spec(s, a), b) == pop_spec(s, (a + b) as u16),
{
    let n = s.1.len();
    assert(s.1.take(n - a)[n - a - b] == s.1[n - a - b]);
    assert(s.1.take(n - a).take(n - a - b) =~= s.1.take(n - a - b));
}

/// Carrying out the controls of one read and then those of the next is
/// carrying out all of them at once: the same state, and the answers of the
/// first read followed by those of the second.
pub proof fn lemma_controls_across_reads(
    s: KittyState,
    a: Seq<TerminalControl>,
    b: Seq<TerminalControl>,
    cursor: (u16, u16),
)
    ensures
        controls_state(s, a + b) == controls_state(controls_state(s, a), b),
        controls_responses(s, a + b, cursor) == controls_responses(s, a, cursor) + controls_responses(
            controls_state(s, a),
            b,
            cursor,
        ),
    decreases b.len(),
{
    if b.len() == 0 {
        assert(a + b =~= a);
        assert(controls_responses(s, a, cursor) + Seq::<Seq<char>>::empty() =~= controls_responses(s, a, cursor));
    } else {
        lemma_controls_across_reads(s, a, b.drop_last(), cursor);
        assert((a + b).drop_last() =~= a + b.drop_last());
        assert((a + b).last() == b.last());
        let prev = controls_responses(s, a, cursor);
        let rest = controls_responses(controls_state(s, a), b.drop_last(), cursor);
        match b.last() {
            TerminalControl::Query(q) => {
                let r = spec_query_response(q, cursor, controls_state(s, a + b.drop_last()).0);
                assert((prev + rest).push(r) =~= prev + rest.push(r));
            },
            _ => {},
        }
    }
}

impl KittyKeyboard {
    pub fn new() -> (k: Self)
        ensures
            k@ == (0u16, Seq::<u16>::empty()),
    {
        KittyKeyboard { flags: 0, stack: Vec::new() }
    }

    /// `CSI > flags u`: saves the current flags and sets `flags`.
    pub fn push(&mut self, flags: u16)
        ensures
            final(self)@ == push_spec(old(self)@, flags),
    {
        self.stack.push(self.flags);
        self.flags = flags;
    }

    /// `CSI < count u`: restores the flags saved `count` pushes ago (one
    /// when `count` is zero), or zero flags when fewer were saved.
    pub fn pop(&mut self, count: u16)
        ensures
            final(self)@ == pop_spec(old(self)@, count),
    {
        let ghost s0 = self@;
        let mut remaining: u16 = if count == 0 {
            1
        } else {
            count
        };
        let ghost k: int = remaining as int;
        while remaining > 0
            invariant_except_break
                k == (if count == 0 { 1 } else { count as int }),
                remaining <= k,
                k - remaining <= s0.1.len(),
                self.stack@ == s0.1.take(s0.1.len() - (k - remaining)),
                k - remaining > 0 ==> self.flags == s0.1[s0.1.len() - (k - remaining)],
                k - remaining == 0 ==> self.flags == s0.0,
            ensures
                self@ == pop_spec(s0, count),
            decreases remaining,
        {
            match self.stack.pop() {
                Some(prev) => {
                    self.flags = prev;
                    assert(s0.1.take(s0.1.len() - (k - remaining)).drop_last() =~= s0.1.take(
                        s0.1.len() - (k - remaining) - 1,
                    ));
                },
                None => {
                    self.flags = 0;
                    assert(self.stack@ =~= Seq::<u16>::empty());
                    break;
                },
            }
            remaining = remaining - 1;
        }
    }

    /// Carries out the keyboard controls among `controls`, in order, and
    /// returns the answers to the queries among them, each with the flags in
    /// force when it came and with the cursor at `cursor`.
    pub fn apply_controls(&mut self, controls: &Vec<TerminalControl>, cursor: (u16, u16)) -> (out: Vec<
        String,
    >)
        ensures
            final(self)@ == controls_state(old(self)@, controls@),
            out@.len() == controls_responses(old(self)@, controls@, cursor).len(),
            forall|i: int|
                0 <= i < out@.len() ==> #[trigger] out@[i]@ == controls_responses(
                    old(self)@,
                    controls@,
                    cursor,
                )[i],
    {
        let ghost s0 = self@;
        let mut out: Vec<String> = Vec::new();
        let mut i: usize = 0;
        while i < controls.len()
            invariant
                i <= controls.len(),
                self@ == controls_state(s0, controls@.take(i as int)),
                out@.len() == controls_responses(s0, controls@.take(i as int), cursor).len(),
                forall|j: int|
                    0 <= j < out@.len() ==> #[trigger] out@[j]@ == controls_responses(
                        s0,
                        controls@.take(i as int),
                        cursor,
                    )[j],
            decreases controls.len() - i,
        {
            proof {
                assert(controls@.take(i + 1).drop_last() =~= controls@.take(i as int));
            }
            match controls[i] {
                TerminalControl::Query(q) => {
                    let r = encode_terminal_query_response(q, cursor, self.flags);
                    out.push(r);
                },
                TerminalControl::KittyKeyboardPush(f) => {
                    self.push(f);
                },
                TerminalControl::KittyKeyboardPop(n) => {
                    self.pop(n);
                },
            }
            i = i + 1;
        }
        assert(controls@.take(controls.len() as int) =~= controls@);
        out
    }
}

} // verus!
