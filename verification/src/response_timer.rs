//! Timing how long a command takes to answer: from Enter to the first byte
//! of output, and to the end of output (half a second of silence). Times are
//! nanoseconds since the timer was made.
use vstd::prelude::*;
use std::time::Instant;
use crate::clock::{elapsed, elapsed_nanos, instant_now, nanos_since, now_nanos, NANOS_PER_SEC};
use crate::text::{decimal, push_char, push_decimal};

verus! {

/// Output that pauses this long is taken to be complete.
pub const COMPLETION_TIMEOUT_NANOS: u64 = 500_000_000;
/// Responses shorter than this do not count toward the average.
pub const MIN_DURATION_FOR_AVG_NANOS: u64 = 1_000_000_000;

#[derive(Debug, Clone, Copy, PartialEq, Eq, Structural)]
pub enum State {
    Idle,
    WaitingForFirstByte,
    Receiving,
}

pub struct ResponseTimer {
    enabled: bool,
    state: State,
    enter_at: Option<u64>,
    first_byte_at: Option<u64>,
    last_output_at: Option<u64>,
    last_ttfb: Option<u64>,
    last_total: Option<u64>,
    total_sum: u128,
    count: u32,
    origin: Instant,
}

/// The timer's state, as values (durations in nanoseconds).
pub struct TimerState {
    pub enabled: bool,
    pub state: State,
    pub enter_at: Option<u64>,
    pub first_byte_at: Option<u64>,
    pub last_output_at: Option<u64>,
    pub last_ttfb: Option<u64>,
    pub last_total: Option<u64>,
    pub total_sum: u128,
    pub count: u32,
}

/// A disabled timer with nothing measured.
pub open spec fn reset_state() -> TimerState {
    TimerState {
        enabled: false,
        state: State::Idle,
        enter_at: None,
        first_byte_at: None,
        last_output_at: None,
        last_ttfb: None,
        last_total: None,
        total_sum: 0,
        count: 0,
    }
}

pub open spec fn toggle_spec(s: TimerState) -> TimerState {
    if s.enabled { reset_state() } else { TimerState { enabled: true, ..s } }
}

pub open spec fn on_enter_spec(s: TimerState, now: u64) -> TimerState {
    if !s.enabled {
        s
    } else {
        TimerState { state: State::WaitingForFirstByte, enter_at: Some(now), first_byte_at: None, last_output_at: None, ..s }
    }
}

pub open spec fn on_output_spec(s: TimerState, ts: u64) -> TimerState {
    if !s.enabled {
        s
    } else {
        match s.state {
            State::WaitingForFirstByte => TimerState {
                first_byte_at: Some(ts),
                last_output_at: Some(ts),
                last_ttfb: match s.enter_at {
                    Some(e) => Some(elapsed(e, ts) as u64),
                    None => s.last_ttfb,
                },
                state: State::Receiving,
                ..s
            },
            State::Receiving => TimerState { last_output_at: Some(ts), ..s },
            State::Idle => s,
        }
    }
}

/// What `tick_at(now)` does: after half a second without output a response
/// is complete; its total is recorded, and counted toward the average when it
/// took at least a second.
pub open spec fn tick_spec(s: TimerState, now: u64) -> TimerState {
    if s.enabled && s.state == State::Receiving && s.last_output_at is Some
        && elapsed(s.last_output_at->0, now) >= COMPLETION_TIMEOUT_NANOS {
        let last = s.last_output_at->0;
        match s.enter_at {
            Some(e) => {
                let total = elapsed(e, last);
                if total >= MIN_DURATION_FOR_AVG_NANOS {
                    TimerState {
                        last_total: Some(total as u64),
                        total_sum: (s.total_sum + total) as u128,
                        count: (s.count + 1) as u32,
                        state: State::Idle,
                        ..s
                    }
                } else {
                    TimerState { last_total: Some(total as u64), state: State::Idle, ..s }
                }
            },
            None => TimerState { state: State::Idle, ..s },
        }
    } else {
        s
    }
}

/// Whether the response under way, once it completes, is counted toward the
/// average: output has come after an Enter, and the time between them is at
/// least a second.
pub open spec fn response_would_count(s: TimerState) -> bool {
    &&& s.enabled
    &&& s.state == State::Receiving
    &&& s.last_output_at is Some
    &&& s.enter_at is Some
    &&& elapsed(s.enter_at->0, s.last_output_at->0) >= MIN_DURATION_FOR_AVG_NANOS
}

/// Whether `tick_at(now)` counts a response: one that would count, and whose
/// output has been quiet for half a second at `now`.
pub open spec fn tick_counts(s: TimerState, now: u64) -> bool {
    &&& response_would_count(s)
    &&& elapsed(s.last_output_at->0, now) >= COMPLETION_TIMEOUT_NANOS
}

/// " (Ns/k)": the average response in whole seconds over the `k` counted
/// responses; empty before any.
pub open spec fn avg_part(s: TimerState) -> Seq<char> {
    if s.count > 0 {
        seq![' ', '('] + decimal(((s.total_sum / (s.count as u128)) / (NANOS_PER_SEC as u128)) as nat)
            + seq!['s', '/'] + decimal(s.count as nat) + seq![')']
    } else {
        Seq::empty()
    }
}

/// What `display_text_at(now)` shows: the seconds since Enter while a
/// response is under way, the last total once it is complete, then the
/// average.
pub open spec fn display_spec(s: TimerState, now: u64) -> Option<Seq<char>> {
    if !s.enabled {
        None
    } else {
        match s.state {
            State::WaitingForFirstByte | State::Receiving => match s.enter_at {
                Some(e) => Some(seq!['⏱', ' '] + decimal(elapsed(e, now) / (NANOS_PER_SEC as nat)) + seq!['s'] + avg_part(s)),
                None => None,
            },
            State::Idle => match s.last_total {
                Some(t) => Some(seq!['⏱', ' '] + decimal((t / NANOS_PER_SEC) as nat) + seq!['s'] + avg_part(s)),
                None => None,
            },
        }
    }
}


/// The session's statistics only grow: Enter, output and ticks never lower
/// the summed time or the count of measured responses (only turning the
/// timer off resets them).
pub proof fn lemma_stats_never_shrink(s: TimerState, now: u64)
    requires
        tick_counts(s, now) ==> s.count < u32::MAX && s.total_sum + u64::MAX <= u128::MAX,
    ensures
        on_enter_spec(s, now).total_sum == s.total_sum && on_enter_spec(s, now).count == s.count,
        on_output_spec(s, now).total_sum == s.total_sum && on_output_spec(s, now).count == s.count,
        tick_spec(s, now).total_sum >= s.total_sum,
        tick_spec(s, now).count >= s.count,
        tick_spec(s, now).count <= s.count + 1,
{
}

/// A response is counted toward the average exactly when it completes and
/// took at least a second; the sum then grows by its duration.
pub proof fn lemma_counted_responses(s: TimerState, now: u64)
    requires
        tick_counts(s, now) ==> s.count < u32::MAX && s.total_sum + u64::MAX <= u128::MAX,
        s.enabled,
        s.state == State::Receiving,
        s.enter_at is Some,
        s.last_output_at is Some,
        elapsed(s.last_output_at->0, now) >= COMPLETION_TIMEOUT_NANOS,
    ensures
        tick_spec(s, now).state == State::Idle,
        tick_spec(s, now).last_total == Some(elapsed(s.enter_at->0, s.last_output_at->0) as u64),
        (tick_spec(s, now).count == s.count + 1) == (elapsed(s.enter_at->0, s.last_output_at->0)
            >= MIN_DURATION_FOR_AVG_NANOS),
{
}

impl ResponseTimer {
    pub closed spec fn view_state(&self) -> TimerState {
        TimerState {
            enabled: self.enabled,
            state: self.state,
            enter_at: self.enter_at,
            first_byte_at: self.first_byte_at,
            last_output_at: self.last_output_at,
            last_ttfb: self.last_ttfb,
            last_total: self.last_total,
            total_sum: self.total_sum,
            count: self.count,
        }
    }

    /// Each counted response lasted at most `u64::MAX` nanoseconds.
    #[verifier::type_invariant]
    closed spec fn inv(&self) -> bool {
        self.total_sum <= self.count as int * (u64::MAX as int)
    }

    pub fn new() -> (t: Self)
        ensures
            t.view_state() == reset_state(),
    {
        Self {
            enabled: false,
            state: State::Idle,
            enter_at: None,
            first_byte_at: None,
            last_output_at: None,
            last_ttfb: None,
            last_total: None,
            total_sum: 0,
            count: 0,
            origin: instant_now(),
        }
    }

    /// Turns the timer on, or off (forgetting everything measured).
    pub fn toggle(&mut self)
        ensures
            final(self).view_state() == toggle_spec(old(self).view_state()),
    {
        proof { use_type_invariant(&*self); }
        if self.enabled {
            self.total_sum = 0;
            self.count = 0;
            self.enabled = false;
            self.state = State::Idle;
            self.enter_at = None;
            self.first_byte_at = None;
            self.last_output_at = None;
            self.last_ttfb = None;
            self.last_total = None;
        } else {
            self.enabled = true;
        }
    }

    pub fn is_enabled(&self) -> (b: bool)
        ensures
            b == self.view_state().enabled,
    {
        self.enabled
    }

    /// The time is the clock's, so what holds is `on_enter_at` at some time.
    pub fn on_enter(&mut self)
        ensures
            exists|now: u64| final(self).view_state() == #[trigger] on_enter_spec(old(self).view_state(), now),
    {
        let now = now_nanos(&self.origin);
        self.on_enter_at(now);
    }

    /// Enter pressed at `now`: a response is awaited.
    pub fn on_enter_at(&mut self, now: u64)
        ensures
            final(self).view_state() == on_enter_spec(old(self).view_state(), now),
    {
        proof { use_type_invariant(&*self); }
        if !self.enabled {
            return;
        }
        self.state = State::WaitingForFirstByte;
        self.enter_at = Some(now);
        self.first_byte_at = None;
        self.last_output_at = None;
    }

    /// PTY output that arrived at the instant `ts`.
    /// Output at the instant `ts`, counted from the timer's origin.
    pub fn on_pty_output(&mut self, ts: Instant)
        ensures
            exists|t: u64| final(self).view_state() == #[trigger] on_output_spec(old(self).view_state(), t),
    {
        let t = nanos_since(&self.origin, &ts);
        self.on_pty_output_at(t);
    }

    /// PTY output at `ts`: the first byte of a response, or more of it.
    pub fn on_pty_output_at(&mut self, ts: u64)
        ensures
            final(self).view_state() == on_output_spec(old(self).view_state(), ts),
    {
        proof { use_type_invariant(&*self); }
        if !self.enabled {
            return;
        }
        match self.state {
            State::WaitingForFirstByte => {
                self.first_byte_at = Some(ts);
                self.last_output_at = Some(ts);
                if let Some(enter) = self.enter_at {
                    self.last_ttfb = Some(elapsed_nanos(enter, ts));
                }
                self.state = State::Receiving;
            },
            State::Receiving => {
                self.last_output_at = Some(ts);
            },
            State::Idle => {},
        }
    }

    /// The time is the clock's, so what holds is `tick_at` at some time.
    pub fn tick(&mut self)
        requires
            response_would_count(old(self).view_state()) ==> old(self).view_state().count < u32::MAX,
        ensures
            exists|now: u64| final(self).view_state() == #[trigger] tick_spec(old(self).view_state(), now),
    {
        let now = now_nanos(&self.origin);
        self.tick_at(now);
    }

    pub fn tick_at(&mut self, now: u64)
        requires
            tick_counts(old(self).view_state(), now) ==> old(self).view_state().count < u32::MAX,
        ensures
            final(self).view_state() == tick_spec(old(self).view_state(), now),
    {
        proof { use_type_invariant(&*self); }
        if !self.enabled {
            return;
        }
        if self.state == State::Receiving {
            if let Some(last) = self.last_output_at {
                if elapsed_nanos(last, now) >= COMPLETION_TIMEOUT_NANOS {
                    if let Some(enter) = self.enter_at {
                        let total = elapsed_nanos(enter, last);
                        self.last_total = Some(total);
                        if total >= MIN_DURATION_FOR_AVG_NANOS {
                            assert((self.count + 1) as int * (u64::MAX as int) == self.count as int * (u64::MAX as int) + u64::MAX) by (nonlinear_arith);
                            assert(self.count as int * (u64::MAX as int) <= u32::MAX as int * (u64::MAX as int)) by (nonlinear_arith)
                                requires self.count < u32::MAX;
                            self.count = self.count + 1;
                            self.total_sum = self.total_sum + total as u128;
                        }
                    }
                    self.state = State::Idle;
                }
            }
        }
    }

    /// Whether the response under way, once it completes, is counted toward
    /// the average.
    pub fn response_would_count(&self) -> (b: bool)
        ensures
            b == response_would_count(self.view_state()),
    {
        match (self.enabled, self.state, self.enter_at, self.last_output_at) {
            (true, State::Receiving, Some(enter), Some(last)) => elapsed_nanos(enter, last)
                >= MIN_DURATION_FOR_AVG_NANOS,
            _ => false,
        }
    }

    /// The total time of the counted responses, and how many there were.
    pub fn stats(&self) -> (r: (u128, u32))
        ensures
            r == (self.view_state().total_sum, self.view_state().count),
    {
        (self.total_sum, self.count)
    }

    pub fn last_ttfb(&self) -> (r: Option<u64>)
        ensures
            r == self.view_state().last_ttfb,
    {
        self.last_ttfb
    }

    pub fn last_total(&self) -> (r: Option<u64>)
        ensures
            r == self.view_state().last_total,
    {
        self.last_total
    }

    pub fn first_byte_at(&self) -> (r: Option<u64>)
        ensures
            r == self.view_state().first_byte_at,
    {
        self.first_byte_at
    }

    pub fn state(&self) -> (r: State)
        ensures
            r == self.view_state().state,
    {
        self.state
    }

    pub fn set_enabled(&mut self, enabled: bool)
        ensures
            final(self).view_state() == (if enabled && !old(self).view_state().enabled {
                TimerState { enabled: true, ..old(self).view_state() }
            } else if !enabled && old(self).view_state().enabled {
                reset_state()
            } else {
                old(self).view_state()
            }),
    {
        if enabled && !self.enabled {
            proof { use_type_invariant(&*self); }
            self.enabled = true;
        } else if !enabled && self.enabled {
            self.toggle();
        }
    }

    /// The time is the clock's, so what holds is `display_text_at` at some
    /// time.
    pub fn display_text(&self) -> (r: Option<String>)
        ensures
            exists|now: u64|
                match r {
                    Some(s) => #[trigger] display_spec(self.view_state(), now) == Some(s@),
                    None => #[trigger] display_spec(self.view_state(), now) is None,
                },
    {
        let now = now_nanos(&self.origin);
        self.display_text_at(now)
    }

    fn push_avg_part(&self, s: &mut String)
        ensures
            final(s)@ == old(s)@ + avg_part(self.view_state()),
    {
        proof { use_type_invariant(self); }
        if self.count > 0 {
            let c = self.count as u128;
            assert(self.total_sum / c <= u64::MAX) by (nonlinear_arith)
                requires
                    self.total_sum <= c * (u64::MAX as int),
                    c > 0,
            ;
            let avg = (self.total_sum / c) / (NANOS_PER_SEC as u128);
            push_char(s, ' ');
            push_char(s, '(');
            push_decimal(s, avg as u64);
            push_char(s, 's');
            push_char(s, '/');
            push_decimal(s, self.count as u64);
            push_char(s, ')');
            assert(s@ =~= old(s)@ + avg_part(self.view_state()));
        } else {
            assert(s@ =~= old(s)@ + avg_part(self.view_state()));
        }
    }

    pub fn display_text_at(&self, now: u64) -> (r: Option<String>)
        ensures
            match r {
                Some(s) => display_spec(self.view_state(), now) == Some(s@),
                None => display_spec(self.view_state(), now) is None,
            },
    {
        if !self.enabled {
            return None;
        }
        let secs = match self.state {
            State::WaitingForFirstByte | State::Receiving => match self.enter_at {
                Some(e) => elapsed_nanos(e, now) / NANOS_PER_SEC,
                None => return None,
            },
            State::Idle => match self.last_total {
                Some(t) => t / NANOS_PER_SEC,
                None => return None,
            },
        };
        let mut s = String::new();
        push_char(&mut s, '⏱');
        push_char(&mut s, ' ');
        push_decimal(&mut s, secs);
        push_char(&mut s, 's');
        let ghost before = s@;
        self.push_avg_part(&mut s);
        assert(s@ =~= seq!['⏱', ' '] + decimal(secs as nat) + seq!['s'] + avg_part(self.view_state()));
        Some(s)
    }
}

} // verus!
