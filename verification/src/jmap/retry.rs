//! Whether an HTTP failure is worth retrying.

use vstd::prelude::*;

verus! {

#[derive(Debug, Clone, Copy, PartialEq, Eq, Structural)]
pub enum Disposition {
    Retryable,
    Fatal,
}

/// Rate limiting and gateway or availability failures are retried.
pub open spec fn retryable_status(status: u16) -> bool {
    status == 429 || status == 502 || status == 503 || status == 504
}

pub fn classify_http_status(status: u16) -> (r: Disposition)
    ensures
        r == (if retryable_status(status) { Disposition::Retryable } else { Disposition::Fatal }),
{
    if status == 429 || status == 502 || status == 503 || status == 504 {
        Disposition::Retryable
    } else {
        Disposition::Fatal
    }
}

} // verus!
