//! A pomodoro timer: typing starts 25 minutes of work, then input is blocked
//! for a 3-minute break. Times are nanoseconds since the timer was made.
use vstd::prelude::*;
use std::time::Instant;
use crate::clock::{elapsed, elapsed_nanos, instant_now, now_nanos, NANOS_PER_SEC};
use crate::text::{decimal2, push_char, push_decimal2};

verus! {

pub const WORK_SECS: u64 = 25 * 60;
pub const BREAK_SECS: u64 = 3 * 60;

#[derive(Debug, Clone, Copy, PartialEq, Eq, Structural)]
pub enum Phase {
    Idle,
    Working,
    Break,
}

pub struct Pomodoro {
    enabled: bool,
    phase: Phase,
    started_at: Option<u64>,
    origin: Instant,
}

/// The timer's state, as values.
pub struct PomodoroState {
    pub enabled: bool,
    pub phase: Phase,
    pub started_at: Option<u64>,
}

/// Whole seconds from `started` to `now`.
pub open spec fn elapsed_secs(started: u64, now: u64) -> nat {
    elapsed(started, now) / (NANOS_PER_SEC as nat)
}

/// What `tick_at(now)` does: work turns to break after 25 minutes, the break
/// to idle after 3.
pub open spec fn tick_spec(s: PomodoroState, now: u64) -> PomodoroState {
    if !s.enabled || s.started_at is None {
        s
    } else {
        let e = elapsed_secs(s.started_at->0, now);
        match s.phase {
            Phase::Working => if e >= WORK_SECS {
                PomodoroState { phase: Phase::Break, started_at: Some(now), ..s }
            } else {
                s
            },
            Phase::Break => if e >= BREAK_SECS {
                PomodoroState { phase: Phase::Idle, started_at: None, ..s }
            } else {
                s
            },
            Phase::Idle => s,
        }
    }
}

/// What `toggle` does: turning the timer off makes it idle.
pub open spec fn toggle_spec(s: PomodoroState) -> PomodoroState {
    if s.enabled {
        PomodoroState { enabled: false, phase: Phase::Idle, started_at: None }
    } else {
        PomodoroState { enabled: true, ..s }
    }
}

/// What `on_input_at(now)` does: typing starts work on an enabled, idle
/// timer.
pub open spec fn on_input_spec(s: PomodoroState, now: u64) -> PomodoroState {
    if s.enabled && s.phase == Phase::Idle {
        PomodoroState { phase: Phase::Working, started_at: Some(now), ..s }
    } else {
        s
    }
}

/// A disabled timer is idle, and a timer is timing exactly when it works or
/// rests.
pub open spec fn consistent(s: PomodoroState) -> bool {
    &&& !s.enabled ==> s.phase == Phase::Idle
    &&& (s.started_at is Some <==> s.phase != Phase::Idle)
}

/// Every operation keeps a timer consistent: input is only ever blocked by
/// an enabled timer on its break, and a disabled one never runs.
pub proof fn lemma_operations_keep_consistency(s: PomodoroState, now: u64)
    requires
        consistent(s),
    ensures
        consistent(toggle_spec(s)),
        consistent(on_input_spec(s, now)),
        consistent(tick_spec(s, now)),
{
}

/// Turning the timer off and on again leaves it enabled and idle.
pub proof fn lemma_toggle_twice_restarts(s: PomodoroState)
    requires
        s.enabled,
    ensures
        toggle_spec(toggle_spec(s)) == (PomodoroState { enabled: true, phase: Phase::Idle, started_at: None }),
{
}

/// `m:s` of a count of seconds, each part at least two digits.
pub open spec fn clock_text(secs: nat) -> Seq<char> {
    decimal2(secs / 60) + seq![':'] + decimal2(secs % 60)
}

/// What `display_text_at(now)` shows: the time left in the phase after a
/// tomato (work) or a cup (break); nothing when disabled or idle.
pub open spec fn display_spec(s: PomodoroState, now: u64) -> Option<Seq<char>> {
    if !s.enabled || s.started_at is None {
        None
    } else {
        let e = elapsed_secs(s.started_at->0, now);
        match s.phase {
            Phase::Working => {
                let remaining: nat = if WORK_SECS >= e { (WORK_SECS - e) as nat } else { 0 };
                Some(seq!['\u{1F345}', ' '] + clock_text(remaining))
            },
            Phase::Break => {
                let remaining: nat = if BREAK_SECS >= e { (BREAK_SECS - e) as nat } else { 0 };
                Some(seq!['\u{2615}', ' '] + clock_text(remaining))
            },
            Phase::Idle => None,
        }
    }
}

impl Pomodoro {
    pub closed spec fn state(&self) -> PomodoroState {
        PomodoroState { enabled: self.enabled, phase: self.phase, started_at: self.started_at }
    }

    /// A disabled, idle timer.
    pub fn new() -> (p: Self)
        ensures
            p.state() == (PomodoroState { enabled: false, phase: Phase::Idle, started_at: None }),
            consistent(p.state()),
    {
        Self { enabled: false, phase: Phase::Idle, started_at: None, origin: instant_now() }
    }

    /// Turns the timer on or off; turning it off makes it idle.
    pub fn toggle(&mut self)
        ensures
            final(self).state() == toggle_spec(old(self).state()),
    {
        self.enabled = !self.enabled;
        if !self.enabled {
            self.phase = Phase::Idle;
            self.started_at = None;
        }
    }

    pub fn is_enabled(&self) -> (b: bool)
        ensures
            b == self.state().enabled,
    {
        self.enabled
    }

    pub fn phase(&self) -> (p: Phase)
        ensures
            p == self.state().phase,
    {
        self.phase
    }

    pub fn started_at(&self) -> (t: Option<u64>)
        ensures
            t == self.state().started_at,
    {
        self.started_at
    }

    /// Called when user types. Starts work timer if idle.
    /// The time is the clock's, so what holds is `on_input_at` at some time.
    pub fn on_input(&mut self)
        ensures
            exists|now: u64| final(self).state() == #[trigger] on_input_spec(old(self).state(), now),
    {
        let now = now_nanos(&self.origin);
        self.on_input_at(now);
    }

    /// Typing at `now`: an enabled, idle timer starts working.
    pub fn on_input_at(&mut self, now: u64)
        ensures
            final(self).state() == on_input_spec(old(self).state(), now),
    {
        if !self.enabled {
            return;
        }
        if self.phase == Phase::Idle {
            self.phase = Phase::Working;
            self.started_at = Some(now);
        }
    }

    /// Called periodically. Transitions state if time elapsed.
    /// The time is the clock's, so what holds is `tick_at` at some time.
    pub fn tick(&mut self)
        ensures
            exists|now: u64| final(self).state() == #[trigger] tick_spec(old(self).state(), now),
    {
        let now = now_nanos(&self.origin);
        self.tick_at(now);
    }

    pub fn tick_at(&mut self, now: u64)
        ensures
            final(self).state() == tick_spec(old(self).state(), now),
    {
        if !self.enabled {
            return;
        }
        let started = match self.started_at {
            Some(t) => t,
            None => return,
        };
        let elapsed = elapsed_nanos(started, now) / NANOS_PER_SEC;
        match self.phase {
            Phase::Working => {
                if elapsed >= WORK_SECS {
                    self.phase = Phase::Break;
                    self.started_at = Some(now);
                }
            },
            Phase::Break => {
                if elapsed >= BREAK_SECS {
                    self.phase = Phase::Idle;
                    self.started_at = None;
                }
            },
            Phase::Idle => {},
        }
    }

    pub fn is_input_blocked(&self) -> (b: bool)
        ensures
            b == (self.state().enabled && self.state().phase == Phase::Break),
    {
        self.enabled && self.phase == Phase::Break
    }

    /// Returns display text for the timer, or None if idle.
    /// The time is the clock's, so what holds is `display_text_at` at some
    /// time.
    pub fn display_text(&self) -> (r: Option<String>)
        ensures
            exists|now: u64|
                match r {
                    Some(s) => #[trigger] display_spec(self.state(), now) == Some(s@),
                    None => #[trigger] display_spec(self.state(), now) is None,
                },
    {
        let now = now_nanos(&self.origin);
        self.display_text_at(now)
    }

    pub fn display_text_at(&self, now: u64) -> (r: Option<String>)
        ensures
            match r {
                Some(s) => display_spec(self.state(), now) == Some(s@),
                None => display_spec(self.state(), now) is None,
            },
    {
        if !self.enabled {
            return None;
        }
        let started = match self.started_at {
            Some(t) => t,
            None => return None,
        };
        let elapsed = elapsed_nanos(started, now) / NANOS_PER_SEC;
        match self.phase {
            Phase::Working => {
                let remaining = WORK_SECS.saturating_sub(elapsed);
                let mut s = String::new();
                push_char(&mut s, '\u{1F345}');
                push_char(&mut s, ' ');
                push_decimal2(&mut s, remaining / 60);
                push_char(&mut s, ':');
                push_decimal2(&mut s, remaining % 60);
                assert(s@ =~= seq!['\u{1F345}', ' '] + clock_text(remaining as nat));
                Some(s)
            },
            Phase::Break => {
                let remaining = BREAK_SECS.saturating_sub(elapsed);
                let mut s = String::new();
                push_char(&mut s, '\u{2615}');
                push_char(&mut s, ' ');
                push_decimal2(&mut s, remaining / 60);
                push_char(&mut s, ':');
                push_decimal2(&mut s, remaining % 60);
                assert(s@ =~= seq!['\u{2615}', ' '] + clock_text(remaining as nat));
                Some(s)
            },
            Phase::Idle => None,
        }
    }
}

} // verus!
