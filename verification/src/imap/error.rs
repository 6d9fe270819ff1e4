//! IMAP errors and the reading of `NO` responses.

use vstd::prelude::*;
use crate::text::{contains_seq, lower_seq, str_contains, str_eq, to_lower};

verus! {

#[derive(Debug)]
pub enum ImapError {
    Io(std::io::Error),
    Tls(String),
    Protocol(String),
    Parse(String),
    AuthFailed(String),
    Bad(String),
    No(NoError),
    Bye(String),
    Disconnected,
    Unsupported(String),
}

/// A tagged `NO` response: its text and optional response code.
#[derive(Debug, Clone)]
pub struct NoError {
    pub text: String,
    pub code: Option<String>,
}

/// Free text that suggests a temporary condition (checked on the lowered text).
pub open spec fn imap_transient_text(t: Seq<char>) -> bool {
    let l = lower_seq(t);
    ||| contains_seq(l, "temp"@)
    ||| contains_seq(l, "try again"@)
    ||| contains_seq(l, "try later"@)
    ||| contains_seq(l, "unavailable"@)
    ||| contains_seq(l, "over quota"@)
    ||| contains_seq(l, "overquota"@)
    ||| contains_seq(l, "throttle"@)
    ||| contains_seq(l, "rate limit"@)
    ||| contains_seq(l, "too many"@)
}

/// The response codes that report failed authentication (exact spelling).
pub open spec fn auth_failure_code(code: Option<Seq<char>>) -> bool {
    match code {
        Some(c) => c == "AUTHENTICATIONFAILED"@ || c == "PRIVACYREQUIRED"@ || c == "AUTHORIZATIONFAILED"@,
        None => false,
    }
}

impl NoError {
    pub fn new(text: &str, code: Option<String>) -> (r: NoError)
        ensures
            r.text@ == text@,
            r.code == code,
    {
        NoError { text: text.to_owned(), code }
    }

    pub fn is_transient(&self) -> (r: bool)
        ensures
            r == imap_transient_text(self.text@),
    {
        let lower = to_lower(self.text.as_str());
        let l = lower.as_str();
        str_contains(l, "temp") || str_contains(l, "try again") || str_contains(l, "try later")
            || str_contains(l, "unavailable") || str_contains(l, "over quota") || str_contains(
            l,
            "overquota",
        ) || str_contains(l, "throttle") || str_contains(l, "rate limit") || str_contains(
            l,
            "too many",
        )
    }

    pub fn is_auth_failed(&self) -> (r: bool)
        ensures
            r == auth_failure_code(crate::managesieve::error::opt_view(self.code)),
    {
        match &self.code {
            Some(c) => {
                let s = c.as_str();
                str_eq(s, "AUTHENTICATIONFAILED") || str_eq(s, "PRIVACYREQUIRED") || str_eq(
                    s,
                    "AUTHORIZATIONFAILED",
                )
            },
            None => false,
        }
    }
}

} // verus!
