//! What the crate relies on of the standard clock types.
//!
//! `Duration` and `Instant` are opaque here. A duration is known by its length
//! in nanoseconds, and two instants by the time that lies between them.
use std::time::{Duration, Instant};
use vstd::prelude::*;

verus! {

/// `std::time::Instant`, an opaque point of the monotonic clock.
#[verifier::external_type_specification]
#[verifier::external_body]
pub struct ExInstant(std::time::Instant);

/// What `Duration::as_nanos` returns: the length of a duration in nanoseconds.
pub uninterp spec fn duration_nanos(d: Duration) -> nat;

/// What `Instant::saturating_duration_since` measures, in nanoseconds: the time
/// from `earlier` to `later`, zero when `earlier` is the later of the two.
pub uninterp spec fn elapsed_nanos(later: Instant, earlier: Instant) -> nat;

/// The longest duration: `u64::MAX` seconds and 999,999,999 nanoseconds.
pub open spec fn longest_duration_nanos() -> nat {
    (u64::MAX as nat) * 1_000_000_000 + 999_999_999
}

/// Difference of two lengths, zero where the second is the longer.
pub open spec fn nanos_less(a: nat, b: nat) -> nat {
    if a >= b {
        (a - b) as nat
    } else {
        0
    }
}

/// `Duration::as_nanos` returns the whole length of the duration.
pub assume_specification[ Duration::as_nanos ](d: &Duration) -> (n: u128)
    ensures
        n as nat == duration_nanos(*d),
        n <= longest_duration_nanos(),
;

/// `Duration::as_secs` returns the number of whole seconds.
pub assume_specification[ Duration::as_secs ](d: &Duration) -> (n: u64)
    ensures
        n as nat == duration_nanos(*d) / 1_000_000_000,
;

/// `Duration::from_secs` makes a duration of that many whole seconds.
pub assume_specification[ Duration::from_secs ](secs: u64) -> (d: Duration)
    ensures
        duration_nanos(d) == (secs as nat) * 1_000_000_000,
;

/// `Duration::from_millis` makes a duration of that many milliseconds.
pub assume_specification[ Duration::from_millis ](millis: u64) -> (d: Duration)
    ensures
        duration_nanos(d) == (millis as nat) * 1_000_000,
;

/// `Duration::saturating_sub` subtracts and stops at zero.
pub assume_specification[ Duration::saturating_sub ](d: Duration, rhs: Duration) -> (r: Duration)
    ensures
        duration_nanos(r) == nanos_less(duration_nanos(d), duration_nanos(rhs)),
;

/// `Duration::saturating_mul` multiplies and stops at the longest duration.
pub assume_specification[ Duration::saturating_mul ](d: Duration, rhs: u32) -> (r: Duration)
    ensures
        duration_nanos(r) == if duration_nanos(d) * (rhs as nat) <= longest_duration_nanos() {
            duration_nanos(d) * (rhs as nat)
        } else {
            longest_duration_nanos()
        },
;

/// `Instant::saturating_duration_since` returns the time elapsed since an
/// earlier instant, or zero.
pub assume_specification[ Instant::saturating_duration_since ](later: &Instant, earlier: Instant) -> (d:
    Duration)
    ensures
        duration_nanos(d) == elapsed_nanos(*later, earlier),
;

/// What `Duration` prints with `Debug`, by its length in nanoseconds.
pub uninterp spec fn duration_debug(nanos: nat) -> Seq<char>;

/// Formats a duration with `Debug`.
#[verifier::external_body]
pub(crate) fn duration_text(d: Duration) -> (s: String)
    ensures
        s@ == duration_debug(duration_nanos(d)),
{
    format!("{:?}", d)
}

/// `Instant::now` reads the clock; nothing is promised of the reading.
#[verifier::external_body]
pub(crate) fn clock_now() -> (now: Instant) {
    Instant::now()
}

} // verus!
