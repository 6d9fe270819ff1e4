//! How a ManageSieve failure is handled: reconnect, retry, skip or stop.

use vstd::prelude::*;
use crate::managesieve::error::{code_is, no_is_transient, opt_view, SieveError};

verus! {

#[derive(Debug, Clone, Copy, PartialEq, Eq, Structural)]
pub enum Disposition {
    TransportDrop,
    Transient,
    Permanent,
    PerScriptRecoverable,
    FeatureNegotiation,
    Referral,
}

pub open spec fn spec_classify(err: &SieveError) -> Disposition {
    match err {
        SieveError::Io(_) => Disposition::TransportDrop,
        SieveError::Tls(_) => Disposition::Permanent,
        SieveError::Bye(_) => Disposition::TransportDrop,
        SieveError::No(no) => if code_is(opt_view(no.code), "REFERRAL"@) {
            Disposition::Referral
        } else if no_is_transient(no.text@, opt_view(no.code)) {
            Disposition::Transient
        } else {
            Disposition::Permanent
        },
        SieveError::Protocol(_) | SieveError::Parse(_) | SieveError::Unsupported(_) => {
            Disposition::Permanent
        },
        SieveError::Referral(_) => Disposition::Referral,
    }
}

pub fn classify(err: &SieveError) -> (r: Disposition)
    ensures
        r == spec_classify(err),
{
    match err {
        SieveError::Io(_) => Disposition::TransportDrop,
        SieveError::Tls(_) => Disposition::Permanent,
        SieveError::Bye(_) => Disposition::TransportDrop,
        SieveError::No(no) => {
            if no.is_referral() {
                Disposition::Referral
            } else if no.is_transient() {
                Disposition::Transient
            } else {
                Disposition::Permanent
            }
        },
        SieveError::Protocol(_) | SieveError::Parse(_) | SieveError::Unsupported(_) => {
            Disposition::Permanent
        },
        SieveError::Referral(_) => Disposition::Referral,
    }
}

/// A failure that means the server does not support what was asked: a `NO`
/// that is neither transient nor a referral, or an explicit lack of support.
pub fn is_negotiation_failure(err: &SieveError) -> (r: bool)
    ensures
        r == match err {
            SieveError::No(no) => !no_is_transient(no.text@, opt_view(no.code)) && !code_is(
                opt_view(no.code),
                "REFERRAL"@,
            ),
            SieveError::Unsupported(_) => true,
            _ => false,
        },
{
    match err {
        SieveError::No(no) => !no.is_transient() && !no.is_referral(),
        SieveError::Unsupported(_) => true,
        _ => false,
    }
}

/// The disposition of a failure on one script: what would stop the whole
/// run as permanent only skips that script.
pub fn script_disposition(err: &SieveError) -> (r: Disposition)
    ensures
        r == (match spec_classify(err) {
            Disposition::Permanent | Disposition::FeatureNegotiation => Disposition::PerScriptRecoverable,
            other => other,
        }),
{
    let base = classify(err);
    match base {
        Disposition::Permanent | Disposition::FeatureNegotiation => {
            Disposition::PerScriptRecoverable
        },
        other => other,
    }
}

} // verus!
