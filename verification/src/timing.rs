//! Phase timings. No clock is read: every phase is reported as unmeasured.

use std::time::Duration;
use vstd::prelude::*;

verus! {

/// The whole nanoseconds that a `Duration` spans, as `Duration::as_nanos` counts them.
pub uninterp spec fn duration_nanos(duration: Duration) -> nat;

/// `Duration::from_nanos`: the span of exactly `nanos` nanoseconds.
#[verifier::external_body]
pub(crate) fn span_of_nanos(nanos: u64) -> (duration: Duration)
    ensures
        duration_nanos(duration) == nanos,
{
    Duration::from_nanos(nanos)
}

/// The timing reported for a phase that was not measured: zero.
pub(crate) fn unmeasured() -> (duration: Duration)
    ensures
        duration_nanos(duration) == 0,
{
    span_of_nanos(0)
}

} // verus!
