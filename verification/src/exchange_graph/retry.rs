//! How Microsoft Graph HTTP statuses are handled.

use vstd::prelude::*;

verus! {

#[derive(Debug, Clone, Copy, PartialEq, Eq, Structural)]
pub enum HttpClass {
    Success,
    Retryable,
    Auth,
    Vanished,
    Fatal,
}

pub open spec fn http_class(status: u16) -> HttpClass {
    if 200 <= status <= 299 {
        HttpClass::Success
    } else if status == 401 || status == 403 {
        HttpClass::Auth
    } else if status == 404 || status == 410 {
        HttpClass::Vanished
    } else if status == 429 || status == 500 || status == 502 || status == 503 || status == 504 {
        HttpClass::Retryable
    } else {
        HttpClass::Fatal
    }
}

pub fn classify_http_status(status: u16) -> (r: HttpClass)
    ensures
        r == http_class(status),
{
    if 200 <= status && status <= 299 {
        HttpClass::Success
    } else if status == 401 {
        HttpClass::Auth
    } else if status == 403 {
        HttpClass::Auth
    } else if status == 404 || status == 410 {
        HttpClass::Vanished
    } else if status == 429 || status == 500 || status == 502 || status == 503 || status == 504 {
        HttpClass::Retryable
    } else {
        HttpClass::Fatal
    }
}

/// Statuses that signal throttling.
pub fn is_throttled(status: u16) -> (r: bool)
    ensures
        r == (status == 429 || status == 503),
{
    status == 429 || status == 503
}

/// A throttling status is always retried.
pub proof fn law_throttled_is_retryable(status: u16)
    requires
        status == 429 || status == 503,
    ensures
        http_class(status) == HttpClass::Retryable,
{
}

/// Each Graph status falls in one class: 2xx succeeds, 401 and 403 ask for
/// authentication, 404 and 410 mean the resource vanished, 429, 500, 502, 503
/// and 504 are retried, and every other status is fatal.
pub proof fn law_status_classes(status: u16)
    ensures
        http_class(status) == HttpClass::Success <==> 200 <= status <= 299,
        http_class(status) == HttpClass::Auth <==> (status == 401 || status == 403),
        http_class(status) == HttpClass::Vanished <==> (status == 404 || status == 410),
        http_class(status) == HttpClass::Retryable <==> (status == 429 || status == 500 || status == 502 || status
            == 503 || status == 504),
{
}

} // verus!
