//! Time as the pool reasons about it: whole nanoseconds.
//!
//! Callers hand in and get back `std::time::Duration`; between the two the
//! library computes on `u128` nanosecond counts, which hold the sum of any two
//! durations without overflow.

use std::time::Duration;
use vstd::prelude::*;

verus! {

/// The nanoseconds in a millisecond.
pub const NANOS_PER_MILLI: u128 = 1_000_000;

/// The nanoseconds in a second.
pub const NANOS_PER_SECOND: u128 = 1_000_000_000;

/// The longest span a `Duration` can hold: `u64::MAX` seconds and 999,999,999 nanoseconds.
pub const MAX_DURATION_NANOS: u128 = 18_446_744_073_709_551_615_999_999_999;

/// The total number of nanoseconds in a duration, as `Duration::as_nanos` reports it.
pub uninterp spec fn duration_nanos(d: Duration) -> nat;

/// Calls `Duration::as_nanos`. The bound is the one the type documents: a whole
/// number of seconds in a `u64` and a fraction below one second.
#[verifier::external_body]
pub(crate) fn nanos_of(d: Duration) -> (n: u128)
    ensures
        n == duration_nanos(d),
        n <= MAX_DURATION_NANOS,
{
    d.as_nanos()
}

/// Calls `Duration::new`. With a fraction below one second nothing carries into
/// the seconds, so the call cannot overflow.
#[verifier::external_body]
pub(crate) fn new_duration(secs: u64, subsec_nanos: u32) -> (d: Duration)
    requires
        subsec_nanos < 1_000_000_000,
    ensures
        duration_nanos(d) == secs * 1_000_000_000 + subsec_nanos,
{
    Duration::new(secs, subsec_nanos)
}

/// The nanoseconds a duration built from `nanos` holds: `nanos` itself, or the
/// longest duration where `nanos` exceeds it.
pub open spec fn clamp_to_duration(nanos: nat) -> nat {
    if nanos <= MAX_DURATION_NANOS {
        nanos
    } else {
        MAX_DURATION_NANOS as nat
    }
}

/// The duration of `nanos` nanoseconds, saturating at the longest duration.
pub fn duration_from_nanos(nanos: u128) -> (d: Duration)
    ensures
        duration_nanos(d) == clamp_to_duration(nanos as nat),
{
    if nanos > MAX_DURATION_NANOS {
        new_duration(u64::MAX, 999_999_999)
    } else {
        let secs: u128 = nanos / NANOS_PER_SECOND;
        let rest: u128 = nanos % NANOS_PER_SECOND;
        new_duration(secs as u64, rest as u32)
    }
}

/// The time from `then` to `now`, zero where `then` is not in the past.
pub open spec fn elapsed(now: nat, then: nat) -> nat {
    if now >= then {
        (now - then) as nat
    } else {
        0
    }
}

/// Computes [`elapsed`].
pub fn elapsed_since(now: u128, then: u128) -> (age: u128)
    ensures
        age == elapsed(now as nat, then as nat),
{
    if now >= then {
        now - then
    } else {
        0
    }
}

/// Time only moves forward, so an age measured later is never smaller.
pub proof fn elapsed_is_monotonic(earlier: nat, later: nat, then: nat)
    requires
        earlier <= later,
    ensures
        elapsed(earlier, then) <= elapsed(later, then),
{
}

} // verus!
