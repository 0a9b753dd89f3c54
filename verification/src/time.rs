//! Spans of time, made of whole milliseconds.

use vstd::prelude::*;
use core::time::Duration;

verus! {

/// The whole milliseconds of a span of time.
pub uninterp spec fn millis(d: Duration) -> nat;

/// The nanoseconds of a span of time, which are the whole of it.
pub uninterp spec fn nanos(d: Duration) -> nat;

/// Whether the span `d` is `ms` milliseconds and nothing more.
pub open spec fn is_millis(d: Duration, ms: nat) -> bool {
    millis(d) == ms && nanos(d) == ms * 1_000_000
}

/// The span of `secs` seconds.
///
/// Stands for `Duration::from_secs`: the span holds a thousand milliseconds for each
/// second and nothing more, as `Duration::as_millis` and `Duration::as_nanos` show it.
#[verifier::external_body]
pub(crate) fn span_of_secs(secs: u64) -> (d: Duration)
    ensures
        millis(d) == secs * 1000,
        nanos(d) == secs * 1_000_000_000,
{
    Duration::from_secs(secs)
}

/// The span of `ms` milliseconds.
///
/// Stands for `Duration::from_millis`: the span holds the milliseconds given and nothing
/// more, as `Duration::as_millis` and `Duration::as_nanos` show it.
#[verifier::external_body]
pub(crate) fn span_of_millis(ms: u64) -> (d: Duration)
    ensures
        millis(d) == ms,
        nanos(d) == ms * 1_000_000,
{
    Duration::from_millis(ms)
}

/// The whole milliseconds of the span `d`.
///
/// Stands for `Duration::as_millis`.
#[verifier::external_body]
pub(crate) fn millis_of(d: &Duration) -> (ms: u128)
    ensures
        ms == millis(*d),
{
    d.as_millis()
}

} // verus!
