//! ManageSieve errors and the classification of `NO` responses.

use vstd::prelude::*;
use crate::text::{contains_seq, lower_seq, str_contains, str_eq, to_lower, to_upper, upper_seq};

verus! {

#[derive(Debug)]
pub enum SieveError {
    Io(std::io::Error),
    Tls(String),
    Protocol(String),
    Parse(String),
    No(NoError),
    Bye(String),
    Unsupported(String),
    Referral(String),
}

/// A `NO` response: its human-readable text and optional response code.
#[derive(Debug, Clone)]
pub struct NoError {
    pub text: String,
    pub code: Option<String>,
}

/// The response codes that RFC 5804 defines as permanent failures.
pub open spec fn permanent_code(u: Seq<char>) -> bool {
    ||| u == "QUOTA"@
    ||| u == "QUOTA/MAXSCRIPTS"@
    ||| u == "AUTH-TOO-WEAK"@
    ||| u == "ENCRYPT-NEEDED"@
    ||| u == "TRANSITION-NEEDED"@
    ||| u == "NONEXISTENT"@
    ||| u == "ALREADYEXISTS"@
    ||| u == "ACTIVE"@
    ||| u == "SASL"@
    ||| u == "TAG"@
    ||| u == "WARNINGS"@
}

/// Free text that suggests a temporary condition (checked on the lowered text).
pub open spec fn transient_text(t: Seq<char>) -> bool {
    let l = lower_seq(t);
    ||| contains_seq(l, "temp"@)
    ||| contains_seq(l, "try again"@)
    ||| contains_seq(l, "try later"@)
    ||| contains_seq(l, "unavailable"@)
    ||| contains_seq(l, "throttle"@)
    ||| contains_seq(l, "rate limit"@)
    ||| contains_seq(l, "too many"@)
}

/// A `NO` is transient when its code is TRYLATER, never when its code is a
/// permanent one, and otherwise when its text reads as temporary.
pub open spec fn no_is_transient(text: Seq<char>, code: Option<Seq<char>>) -> bool {
    match code {
        Some(c) => if upper_seq(c) == "TRYLATER"@ {
            true
        } else if permanent_code(upper_seq(c)) {
            false
        } else {
            transient_text(text)
        },
        None => transient_text(text),
    }
}

/// The code, compared without regard to ASCII case, is `name`.
pub open spec fn code_is(code: Option<Seq<char>>, name: Seq<char>) -> bool {
    match code {
        Some(c) => upper_seq(c) == name,
        None => false,
    }
}

pub open spec fn opt_view(o: Option<String>) -> Option<Seq<char>> {
    match o {
        Some(s) => Some(s@),
        None => None,
    }
}

fn text_is_transient(text: &str) -> (r: bool)
    ensures
        r == transient_text(text@),
{
    let lower = to_lower(text);
    let l = lower.as_str();
    str_contains(l, "temp") || str_contains(l, "try again") || str_contains(l, "try later")
        || str_contains(l, "unavailable") || str_contains(l, "throttle") || str_contains(
        l,
        "rate limit",
    ) || str_contains(l, "too many")
}

fn is_permanent_code(u: &str) -> (r: bool)
    ensures
        r == permanent_code(u@),
{
    str_eq(u, "QUOTA") || str_eq(u, "QUOTA/MAXSCRIPTS") || str_eq(u, "AUTH-TOO-WEAK") || str_eq(
        u,
        "ENCRYPT-NEEDED",
    ) || str_eq(u, "TRANSITION-NEEDED") || str_eq(u, "NONEXISTENT") || str_eq(u, "ALREADYEXISTS")
        || str_eq(u, "ACTIVE") || str_eq(u, "SASL") || str_eq(u, "TAG") || str_eq(u, "WARNINGS")
}

fn code_matches(code: &Option<String>, name: &str) -> (r: bool)
    ensures
        r == code_is(opt_view(*code), name@),
{
    match code {
        Some(c) => {
            let u = to_upper(c.as_str());
            str_eq(u.as_str(), name)
        },
        None => false,
    }
}

impl NoError {
    pub fn new(text: &str, code: Option<String>) -> (r: NoError)
        ensures
            r.text@ == text@,
            r.code == code,
    {
        NoError { text: text.to_owned(), code }
    }

    pub fn is_transient(&self) -> (r: bool)
        ensures
            r == no_is_transient(self.text@, opt_view(self.code)),
    {
        if let Some(c) = &self.code {
            let cu = to_upper(c.as_str());
            if str_eq(cu.as_str(), "TRYLATER") {
                return true;
            }
            if is_permanent_code(cu.as_str()) {
                return false;
            }
        }
        text_is_transient(self.text.as_str())
    }

    pub fn is_referral(&self) -> (r: bool)
        ensures
            r == code_is(opt_view(self.code), "REFERRAL"@),
    {
        code_matches(&self.code, "REFERRAL")
    }

    pub fn is_nonexistent(&self) -> (r: bool)
        ensures
            r == code_is(opt_view(self.code), "NONEXISTENT"@),
    {
        code_matches(&self.code, "NONEXISTENT")
    }
}

/// The code of a `NO` decides before its text: TRYLATER (in any case) is
/// transient whatever the text, each of RFC 5804's permanent codes (in any
/// case) is never transient, and under any other code the text alone decides,
/// as it does where there is no code.
pub proof fn law_no_code_decides_before_text(text: Seq<char>, c: Seq<char>)
    ensures
        upper_seq(c) == "TRYLATER"@ ==> no_is_transient(text, Some(c)),
        ({
            let u = upper_seq(c);
            let permanent = u == "QUOTA"@ || u == "QUOTA/MAXSCRIPTS"@ || u == "AUTH-TOO-WEAK"@
                || u == "ENCRYPT-NEEDED"@ || u == "TRANSITION-NEEDED"@ || u == "NONEXISTENT"@
                || u == "ALREADYEXISTS"@ || u == "ACTIVE"@ || u == "SASL"@
                || u == "TAG"@ || u == "WARNINGS"@;
            &&& permanent ==> !no_is_transient(text, Some(c))
            &&& !(u == "TRYLATER"@ || permanent) ==> no_is_transient(text, Some(c)) == no_is_transient(text, None)
        }),
{
    reveal_strlit("QUOTA");
    reveal_strlit("QUOTA/MAXSCRIPTS");
    reveal_strlit("AUTH-TOO-WEAK");
    reveal_strlit("ENCRYPT-NEEDED");
    reveal_strlit("TRANSITION-NEEDED");
    reveal_strlit("NONEXISTENT");
    reveal_strlit("ALREADYEXISTS");
    reveal_strlit("ACTIVE");
    reveal_strlit("SASL");
    reveal_strlit("TAG");
    reveal_strlit("WARNINGS");
    reveal_strlit("TRYLATER");
    assert("TRYLATER"@.len() == 8 && "TRYLATER"@[0] == 'T');
    assert("WARNINGS"@[0] == 'W');
}

} // verus!
