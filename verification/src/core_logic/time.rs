//! Monotonic time: the outside work the retry and controller timers need.
use std::time::{Duration, Instant};
use vstd::prelude::*;

verus! {

/// `std::time::Instant`, carried through opaquely.
#[verifier::external_type_specification]
#[verifier::external_body]
pub struct ExInstant(Instant);

/// The `Duration` that `Duration::from_millis` builds from a millisecond count.
pub uninterp spec fn millis_duration(ms: u64) -> Duration;

/// `Instant::now()`: the current monotonic time. Nothing is stated of the
/// value, which depends on the clock.
#[verifier::external_body]
pub(crate) fn instant_now() -> Instant {
    Instant::now()
}

/// `Instant::checked_add`: `t` moved on by `d`, or `None` where the
/// result cannot be represented. Depends on the clock's representation;
/// nothing is stated.
#[verifier::external_body]
fn instant_checked_add(t: &Instant, d: Duration) -> Option<Instant> {
    t.checked_add(d)
}

/// `Instant >= Instant`. The values are opaque; nothing is stated.
#[verifier::external_body]
fn instant_ge(a: &Instant, b: &Instant) -> bool {
    *a >= *b
}

/// `Instant::elapsed`: the time passed since `t`. Depends on the clock;
/// nothing is stated.
#[verifier::external_body]
fn instant_elapsed(t: &Instant) -> Duration {
    t.elapsed()
}

/// `Duration >= Duration`. The values are opaque; nothing is stated of the
/// result.
#[verifier::external_body]
fn duration_ge(a: &Duration, b: &Duration) -> bool {
    *a >= *b
}

/// A point `ms` milliseconds from now (now itself in the unrepresentable
/// case).
pub(crate) fn instant_after_millis(ms: u64) -> Instant {
    let now = instant_now();
    match instant_checked_add(&now, duration_from_millis(ms)) {
        Some(t) => t,
        None => now,
    }
}

/// Whether the clock has reached `t`.
pub(crate) fn instant_reached(t: &Instant) -> bool {
    let now = instant_now();
    instant_ge(&now, t)
}

/// Whether at least `secs` seconds have passed since `t`.
pub(crate) fn elapsed_at_least_secs(t: &Instant, secs: u64) -> bool
    requires
        secs <= 1_000_000,
{
    let elapsed = instant_elapsed(t);
    let bound = duration_from_millis(secs * 1000);
    duration_ge(&elapsed, &bound)
}

/// `Duration::from_millis(ms)`: the result is the duration of `ms` milliseconds.
#[verifier::external_body]
pub(crate) fn duration_from_millis(ms: u64) -> (d: Duration)
    ensures
        d == millis_duration(ms),
{
    Duration::from_millis(ms)
}

} // verus!
