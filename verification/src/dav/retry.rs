//! How DAV HTTP statuses are handled.

use vstd::prelude::*;
use crate::jmap::retry::{classify_http_status, retryable_status, Disposition};
use crate::text::str_eq;

verus! {

#[derive(Debug, Clone, Copy, PartialEq, Eq, Structural)]
pub enum DavOutcome {
    Success,
    Retryable,
    Vanished,
    Auth,
    Fatal,
}

/// For a body that parses as JSON and has an array at member `inner` of
/// member `outer`: the string held by member `field` of each entry (none
/// where an entry has no such string). None when the body is not JSON or has
/// no such array.
pub uninterp spec fn json_entry_strings(body: Seq<u8>, outer: Seq<char>, inner: Seq<char>, field: Seq<char>) -> Option<Seq<Option<Seq<char>>>>;

/// Reads, with `serde_json` (`from_slice`, `Value::get`, `Value::as_array`,
/// `Value::as_str`), the string `field` of each entry of the array at
/// `outer.inner` of a JSON body. The result is named by `json_entry_strings`;
/// what JSON `serde_json` accepts is not stated.
#[verifier::external_body]
fn entry_strings(body: &[u8], outer: &str, inner: &str, field: &str) -> (r: Option<Vec<Option<String>>>)
    ensures
        match r {
            Some(v) => json_entry_strings(body@, outer@, inner@, field@) == Some(v@.map_values(|d: Option<String>| crate::managesieve::error::opt_view(d))),
            None => json_entry_strings(body@, outer@, inner@, field@) is None,
        },
{
    let value: serde_json::Value = serde_json::from_slice(body).ok()?;
    let entries = value.get(outer)?.get(inner)?.as_array()?;
    Some(entries.iter().map(|e| e.get(field).and_then(serde_json::Value::as_str).map(str::to_owned)).collect())
}

/// The `domain` of each entry of `error.errors` in a JSON error body.
pub open spec fn json_error_domains(body: Seq<u8>) -> Option<Seq<Option<Seq<char>>>> {
    json_entry_strings(body, "error"@, "errors"@, "domain"@)
}

/// The body reports Google's usage limits (a rate limit under a 403).
pub open spec fn usage_limited(body: Seq<u8>) -> bool {
    match json_error_domains(body) {
        Some(ds) => exists|i: int| 0 <= i < ds.len() && #[trigger] ds[i] == Some("usageLimits"@),
        None => false,
    }
}

fn is_google_usage_limit(body: &[u8]) -> (r: bool)
    ensures
        r == usage_limited(body@),
{
    let domains = match entry_strings(body, "error", "errors", "domain") {
        Some(d) => d,
        None => return false,
    };
    let ghost dv = domains@.map_values(|d: Option<String>| crate::managesieve::error::opt_view(d));
    let mut i: usize = 0;
    while i < domains.len()
        invariant
            dv == domains@.map_values(|d: Option<String>| crate::managesieve::error::opt_view(d)),
            json_error_domains(body@) == Some(dv),
            i <= domains@.len(),
            forall|j: int| 0 <= j < i ==> #[trigger] dv[j] != Some("usageLimits"@),
        decreases domains.len() - i,
    {
        if let Some(d) = &domains[i] {
            if str_eq(d.as_str(), "usageLimits") {
                assert(dv[i as int] == Some("usageLimits"@));
                return true;
            }
        }
        i += 1;
    }
    false
}

pub open spec fn dav_outcome(status: u16, body: Seq<u8>) -> DavOutcome {
    if 200 <= status < 300 {
        DavOutcome::Success
    } else if status == 401 {
        DavOutcome::Auth
    } else if status == 403 {
        if usage_limited(body) {
            DavOutcome::Retryable
        } else {
            DavOutcome::Auth
        }
    } else if status == 404 || status == 410 {
        DavOutcome::Vanished
    } else if status == 423 || status == 429 || status == 502 || status == 503 || status == 504 || status == 507 {
        DavOutcome::Retryable
    } else if retryable_status(status) {
        DavOutcome::Retryable
    } else {
        DavOutcome::Fatal
    }
}

pub fn classify(status: u16, body: &[u8]) -> (r: DavOutcome)
    ensures
        r == dav_outcome(status, body@),
{
    if 200 <= status && status < 300 {
        return DavOutcome::Success;
    }
    if status == 401 {
        return DavOutcome::Auth;
    }
    if status == 403 {
        if is_google_usage_limit(body) {
            return DavOutcome::Retryable;
        }
        return DavOutcome::Auth;
    }
    if status == 404 || status == 410 {
        return DavOutcome::Vanished;
    }
    if status == 423 || status == 429 || status == 502 || status == 503 || status == 504 || status == 507 {
        return DavOutcome::Retryable;
    }
    match classify_http_status(status) {
        Disposition::Retryable => DavOutcome::Retryable,
        Disposition::Fatal => DavOutcome::Fatal,
    }
}

/// How a DAV status is handled: 2xx succeeds; 404 and 410 mean the resource
/// vanished; 401 asks for authentication, and so does 403 unless its body
/// reports Google's usage limits, which is retried; 423, 429, 502, 503, 504
/// and 507 are retried; every other status is fatal.
pub proof fn law_dav_outcomes(status: u16, body: Seq<u8>)
    ensures
        dav_outcome(status, body) == DavOutcome::Success <==> 200 <= status < 300,
        dav_outcome(status, body) == DavOutcome::Vanished <==> (status == 404 || status == 410),
        dav_outcome(status, body) == DavOutcome::Auth <==> (status == 401 || (status == 403 && !usage_limited(body))),
        dav_outcome(status, body) == DavOutcome::Retryable <==> ((status == 403 && usage_limited(body)) || status
            == 423 || status == 429 || status == 502 || status == 503 || status == 504 || status == 507),
{
}

} // verus!
