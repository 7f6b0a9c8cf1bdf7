//! Time: wall-clock seconds, durations as whole nanoseconds, and instants.
//!
//! Each trusted item below makes one std call. The comparisons and the
//! arithmetic on durations are done in verified code over nanoseconds.
use std::time::{Duration, Instant};
use vstd::prelude::*;

verus! {

/// The largest number of nanoseconds a `Duration` holds.
pub const MAX_DURATION_NANOS: u128 = 18446744073709551615999999999;

/// Nanoseconds in a second.
pub const NANOS_PER_SEC: u128 = 1000000000;

/// Relies on `SystemTime::now` and `duration_since(UNIX_EPOCH)`: seconds
/// since the Unix epoch, 0 for a clock set before it. Nothing is assumed of
/// the value.
#[verifier::external_body]
pub(crate) fn unix_now_secs() -> (r: u64) {
    std::time::SystemTime::now().duration_since(std::time::UNIX_EPOCH).map_or(0, |d| d.as_secs())
}

/// Relies on `Duration::from_secs`.
#[verifier::external_body]
pub(crate) fn secs(n: u64) -> Duration {
    Duration::from_secs(n)
}

/// Relies on `Duration::from_millis`.
#[verifier::external_body]
pub(crate) fn millis(n: u64) -> Duration {
    Duration::from_millis(n)
}

/// Relies on `Duration::as_nanos`: the whole nanoseconds of `d`, at most
/// `u64::MAX` seconds and 999,999,999 nanoseconds.
#[verifier::external_body]
pub(crate) fn duration_nanos(d: Duration) -> (r: u128)
    ensures
        r <= MAX_DURATION_NANOS,
{
    d.as_nanos()
}

/// Relies on `Duration::new`, which cannot overflow when `nanos` is below
/// one second.
#[verifier::external_body]
pub(crate) fn duration_new(secs: u64, nanos: u32) -> Duration
    requires
        nanos < 1000000000,
{
    Duration::new(secs, nanos)
}

/// Relies on `Instant::checked_add`: `t` moved on by `d`, or `None` when the
/// result cannot be represented. Nothing is assumed of the value.
#[verifier::external_body]
pub(crate) fn instant_checked_add(t: Instant, d: Duration) -> Option<Instant> {
    t.checked_add(d)
}

/// Nanoseconds since `t` (zero when `t` is not in the past).
pub(crate) fn elapsed_nanos(t: &Instant) -> (r: u128)
    ensures
        r <= MAX_DURATION_NANOS,
{
    duration_nanos(t.elapsed())
}

/// The duration of `n` nanoseconds.
pub(crate) fn nanos_to_duration(n: u128) -> Duration
    requires
        n <= MAX_DURATION_NANOS,
{
    let s = n / NANOS_PER_SEC;
    let sub = n % NANOS_PER_SEC;
    assert(s <= 18446744073709551615u128) by (nonlinear_arith)
        requires
            n <= 18446744073709551615999999999u128,
            s == n / 1000000000u128,
    ;
    duration_new(s as u64, sub as u32)
}

/// Whether `t` lies less than `window` in the past.
pub(crate) fn within(t: &Instant, window: Duration) -> bool {
    elapsed_nanos(t) < duration_nanos(window)
}

/// Whether `t` lies strictly in the past.
pub(crate) fn is_past(t: &Instant) -> bool {
    elapsed_nanos(t) > 0
}

/// What is left of `window` since `t`: `window` minus the time elapsed,
/// never below zero.
pub(crate) fn remaining(window: Duration, t: &Instant) -> Duration {
    let w = duration_nanos(window);
    let e = elapsed_nanos(t);
    if e >= w {
        duration_new(0, 0)
    } else {
        nanos_to_duration(w - e)
    }
}

} // verus!
