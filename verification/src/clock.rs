//! Monotonic time, as nanoseconds counted from an origin.
use vstd::prelude::*;
use std::time::{Duration, Instant};

verus! {

#[verifier::external_type_specification]
#[verifier::external_body]
pub struct ExInstant(Instant);

/// `Instant::now`: the current instant of the monotonic clock. Nothing is
/// claimed of it.
#[verifier::external_body]
pub fn instant_now() -> (t: Instant) {
    Instant::now()
}

/// `Instant::saturating_duration_since`: how long after `earlier` the
/// instant `later` comes, zero when it comes before. Instants and durations
/// are opaque here, so nothing is claimed of the value.
#[verifier::external_body]
fn duration_between(earlier: &Instant, later: &Instant) -> (d: Duration) {
    later.saturating_duration_since(*earlier)
}

/// `Duration::as_nanos`: the whole nanoseconds of a duration. Durations are
/// opaque here, so nothing is claimed of the value.
#[verifier::external_body]
fn duration_nanos(d: &Duration) -> (n: u128) {
    d.as_nanos()
}

/// Nanoseconds from `origin` to `t`, saturating at `u64::MAX` (some 584
/// years).
pub fn nanos_since(origin: &Instant, t: &Instant) -> (n: u64) {
    let d = duration_between(origin, t);
    let n = duration_nanos(&d);
    if n > u64::MAX as u128 { u64::MAX } else { n as u64 }
}

/// Nanoseconds from `origin` to now.
pub fn now_nanos(origin: &Instant) -> (n: u64) {
    let now = instant_now();
    nanos_since(origin, &now)
}

pub const NANOS_PER_SEC: u64 = 1_000_000_000;

/// `later - earlier`, 0 when `later` comes first (as `duration_since` on
/// instants saturates).
pub open spec fn elapsed(earlier: u64, later: u64) -> nat {
    if later >= earlier { (later - earlier) as nat } else { 0 }
}

pub fn elapsed_nanos(earlier: u64, later: u64) -> (n: u64)
    ensures
        n == elapsed(earlier, later),
{
    later.saturating_sub(earlier)
}

} // verus!
