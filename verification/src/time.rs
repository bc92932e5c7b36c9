//! `std::time::Duration`, seen through its total number of nanoseconds.
use vstd::prelude::*;
use std::time::Duration;

verus! {

/// The total number of nanoseconds that a `Duration` stands for
/// (`Duration::as_nanos`).
pub uninterp spec fn duration_nanos(d: Duration) -> nat;

pub open spec fn nanos_per_second() -> nat {
    1_000_000_000
}

/// `Duration::MAX` in nanoseconds.
pub open spec fn max_duration_nanos() -> nat {
    0xFFFF_FFFF_FFFF_FFFF * 1_000_000_000 + 999_999_999
}

/// `Duration::from_secs`: the duration of `secs` whole seconds.
#[verifier::external_body]
pub(crate) fn duration_from_secs(secs: u64) -> (d: Duration)
    ensures
        duration_nanos(d) == secs * nanos_per_second(),
{
    Duration::from_secs(secs)
}

/// `Duration::from_millis`: the duration of `millis` milliseconds.
#[verifier::external_body]
pub(crate) fn duration_from_millis(millis: u64) -> (d: Duration)
    ensures
        duration_nanos(d) == millis * 1_000_000,
{
    Duration::from_millis(millis)
}

/// `Duration::saturating_mul`: the product, or `Duration::MAX` when it
/// would not fit.
#[verifier::external_body]
pub(crate) fn duration_saturating_mul(d: Duration, factor: u32) -> (r: Duration)
    ensures
        duration_nanos(r) == if duration_nanos(d) * factor <= max_duration_nanos() {
            duration_nanos(d) * factor
        } else {
            max_duration_nanos() as int
        },
{
    d.saturating_mul(factor)
}

/// `Ord::min` on durations: the first one unless the second is shorter.
#[verifier::external_body]
pub(crate) fn duration_min(a: Duration, b: Duration) -> (r: Duration)
    ensures
        r == if duration_nanos(a) <= duration_nanos(b) {
            a
        } else {
            b
        },
{
    a.min(b)
}

/// `a >= b` on durations.
#[verifier::external_body]
pub(crate) fn duration_at_least(a: Duration, b: Duration) -> (r: bool)
    ensures
        r == (duration_nanos(a) >= duration_nanos(b)),
{
    a >= b
}

} // verus!
