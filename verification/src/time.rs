//! Durations made from millisecond counts.

use vstd::prelude::*;

verus! {

/// The duration of `ms` milliseconds, as `Duration::from_millis` makes it.
pub uninterp spec fn millis_duration(ms: u64) -> std::time::Duration;

/// `Duration::from_millis`; its result is named by `millis_duration`.
#[verifier::external_body]
pub fn duration_from_millis(ms: u64) -> (r: std::time::Duration)
    ensures
        r == millis_duration(ms),
{
    std::time::Duration::from_millis(ms)
}

} // verus!
