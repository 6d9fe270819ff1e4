//! What an EWS call does with each answer: the decisions of the call loop.
//! The loop itself (waiting on the rate limiter, sending the request,
//! sleeping) runs outside the library; it hands each answer to
//! [`decide_response`] or each transport failure to [`decide_transport`] and
//! does what the decision says.
use vstd::prelude::*;
use vstd::utf8::encode_utf8;
use std::time::Duration;
use crate::exchange_ews::error::EwsError;
use crate::exchange_ews::parse::{envelope_matches, envelope_spec, read_envelope_summary, no_version, EnvelopeKind};
use crate::exchange_ews::retry::{classify_fault, classify_http_status, FaultDisposition};
use crate::exchange_ews::types::{wire_name, ResponseCode, ServerVersion};
use crate::jmap::retry::Disposition;
use crate::text::{decimal, decimal_string, lossy_string, utf8_lossy};

verus! {

/// The answer to a SOAP call.
#[derive(Debug, Clone)]
pub struct SoapResponse {
    pub body: Vec<u8>,
    pub server_version: Option<ServerVersion>,
}

/// What the call loop does next.
#[derive(Debug)]
pub enum EwsStep {
    /// The call succeeded.
    Done(SoapResponse),
    /// The call failed for good.
    Fail(EwsError),
    /// The server is busy: wait (as long as it asked, where it said) and try
    /// again; `retry_after` tells whether an HTTP `Retry-After` was given.
    Throttled { attempt: u32, delay: Option<Duration>, retry_after: bool },
    /// The transport failed: wait by the back-off schedule and try again.
    Backoff { attempt: u32 },
}

/// A decision, with the server version that the answer reported (which the
/// client keeps for the envelopes it writes next) and whether the answer
/// counts as a success for the rate limiter.
#[derive(Debug)]
pub struct EwsDecision {
    pub step: EwsStep,
    pub learned_version: Option<ServerVersion>,
    pub success: bool,
}

/// The longest prefix of `s` whose UTF-8 form has at most `max` bytes,
/// starting from `k` characters.
pub open spec fn fit_len(s: Seq<char>, max: nat, k: int) -> int
    decreases s.len() - k,
{
    if 0 <= k < s.len() && encode_utf8(s.take(k + 1)).len() <= max {
        fit_len(s, max, k + 1)
    } else {
        k
    }
}

/// A body as an error message: its text, cut to 512 bytes (at a character
/// boundary) and marked with `...` when longer.
pub open spec fn truncated(body: Seq<u8>) -> Seq<char> {
    let text = utf8_lossy(body);
    if encode_utf8(text).len() <= 512 {
        text
    } else {
        text.take(fit_len(text, 512, 0)) + "..."@
    }
}

/// A body as an error message: at most 512 bytes of its text.
pub fn truncate(body: &[u8]) -> (r: String)
    ensures
        r@ == truncated(body@),
{
    let text = lossy_string(body);
    if text.as_str().as_bytes().len() <= 512 {
        return text;
    }
    let chars = crate::text::chars_of(text.as_str());
    let mut out = String::new();
    let mut k: usize = 0;
    assert(chars@.take(0) =~= Seq::<char>::empty());
    while k < chars.len()
        invariant
            chars@ == text@,
            k <= chars@.len(),
            out@ == chars@.take(k as int),
            fit_len(text@, 512, 0) == fit_len(text@, 512, k as int),
        ensures
            fit_len(text@, 512, k as int) == k,
            out@ == chars@.take(k as int),
        decreases chars.len() - k,
    {
        let mut next = out.clone();
        crate::text::push_char(&mut next, chars[k]);
        assert(next@ =~= chars@.take(k + 1));
        let bytes = next.as_str().as_bytes();
        assert(bytes@ == encode_utf8(text@.take(k + 1)));
        if bytes.len() > 512 {
            break;
        }
        out = next;
        k += 1;
    }
    out.append("...");
    out
}

/// The model of a step.
pub enum EwsStepV {
    Done(Seq<u8>, Option<ServerVersion>),
    Fail(EwsErrorV),
    Throttled { attempt: u32, delay: Option<Duration>, retry_after: bool },
    Backoff { attempt: u32 },
}

/// The model of the errors a step ends with.
pub enum EwsErrorV {
    Auth(Seq<char>),
    HttpStatus { status: u16, body: Seq<char> },
    RetriesExhausted(Seq<char>),
    SoapFault { code: ResponseCode, reason: Seq<char> },
    Other(EwsError),
}

pub open spec fn error_is(e: EwsError, v: EwsErrorV) -> bool {
    match v {
        EwsErrorV::Auth(m) => e matches EwsError::Auth(x) && x@ == m,
        EwsErrorV::HttpStatus { status, body } => e matches EwsError::HttpStatus { status: s, body: b } && s == status
            && b@ == body,
        EwsErrorV::RetriesExhausted(m) => e matches EwsError::RetriesExhausted(x) && x@ == m,
        EwsErrorV::SoapFault { code, reason } => e matches EwsError::SoapFault { code: c, reason: r } && c == code
            && r@ == reason,
        EwsErrorV::Other(x) => e == x,
    }
}

pub open spec fn step_is(s: EwsStep, v: EwsStepV) -> bool {
    match v {
        EwsStepV::Done(body, version) => s matches EwsStep::Done(r) && r.body@ == body && r.server_version == version,
        EwsStepV::Fail(ev) => s matches EwsStep::Fail(e) && error_is(e, ev),
        EwsStepV::Throttled { attempt, delay, retry_after } => s == (EwsStep::Throttled { attempt, delay, retry_after }),
        EwsStepV::Backoff { attempt } => s == (EwsStep::Backoff { attempt }),
    }
}

/// A retry after `attempt` retries, or, once `max_retries` were made, the
/// error `exhausted`.
pub open spec fn retry_or(attempt: u32, max_retries: u32, delay: Option<Duration>, retry_after: bool, exhausted: Seq<char>) -> EwsStepV {
    if attempt + 1 > max_retries {
        EwsStepV::Fail(EwsErrorV::RetriesExhausted(exhausted))
    } else {
        EwsStepV::Throttled { attempt: (attempt + 1) as u32, delay, retry_after }
    }
}

/// What a SOAP fault leads to: a busy or passing condition is retried (as
/// long as the server asked to wait, where it said), a demand for
/// authentication is an authentication failure, anything else fails with
/// the fault.
pub open spec fn fault_step(code: ResponseCode, reason: Seq<char>, attempt: u32, max_retries: u32, action: Seq<char>) -> EwsStepV {
    let exhausted = action + " kept returning "@ + wire_name(&code);
    match code {
        ResponseCode::ServerBusy { back_off_ms } => retry_or(attempt, max_retries, match back_off_ms {
            Some(ms) => Some(crate::time::millis_duration(ms)),
            None => None,
        }, false, exhausted),
        _ => if crate::exchange_ews::retry::transient_code(&code) {
            retry_or(attempt, max_retries, None, false, exhausted)
        } else if code is AuthenticationRequired {
            EwsStepV::Fail(EwsErrorV::Auth(reason))
        } else {
            EwsStepV::Fail(EwsErrorV::SoapFault { code, reason })
        },
    }
}

pub open spec fn announced(v: crate::exchange_ews::parse::ServerVersionInfo) -> Option<ServerVersion> {
    match (v.major_version, v.minor_version) {
        (Some(maj), Some(min)) => Some(crate::exchange_ews::types::version_of_build(maj, min)),
        _ => None,
    }
}

/// What a 2xx answer leads to, by its envelope: a body is returned, a fault
/// is handled as [`fault_step`] says, an unreadable envelope fails.
pub open spec fn envelope_step(env: Result<EnvelopeKind, EwsError>, body: Seq<u8>, attempt: u32, max_retries: u32, action: Seq<char>) -> EwsStepV {
    match env {
        Ok(EnvelopeKind::Body { version }) => EwsStepV::Done(body, announced(version)),
        Ok(EnvelopeKind::Fault { fault, .. }) => fault_step(fault.response_code, fault.fault_string@, attempt, max_retries, action),
        Err(e) => EwsStepV::Fail(EwsErrorV::Other(e)),
    }
}

pub open spec fn envelope_version(env: Result<EnvelopeKind, EwsError>) -> Option<ServerVersion> {
    match env {
        Ok(EnvelopeKind::Body { version }) => announced(version),
        Ok(EnvelopeKind::Fault { version, .. }) => announced(version),
        Err(_) => None,
    }
}

/// What a non-2xx answer leads to: 401 is an authentication failure; 403
/// and every status that is not retryable fail with the status and the start
/// of the body; a retryable status is retried until `max_retries` retries
/// were made.
pub open spec fn status_step(status: u16, body: Seq<u8>, retry_after: Option<Duration>, attempt: u32, max_retries: u32, action: Seq<char>) -> EwsStepV {
    if status == 401 {
        EwsStepV::Fail(EwsErrorV::Auth("server returned 401: "@ + truncated(body)))
    } else if status == 403 || !crate::jmap::retry::retryable_status(status) {
        EwsStepV::Fail(EwsErrorV::HttpStatus { status, body: truncated(body) })
    } else {
        retry_or(attempt, max_retries, retry_after, retry_after is Some, action + " kept returning http "@ + decimal(status as nat))
    }
}

fn exhausted_message(action: &str, what: &str, tail: &str) -> (r: String)
    ensures
        r@ == action@ + what@ + tail@,
{
    let mut m = action.to_owned();
    m.append(what);
    m.append(tail);
    m
}

/// The decision on a 2xx answer whose envelope was read as `env`.
pub fn decide_envelope(env: Result<EnvelopeKind, EwsError>, body: Vec<u8>, attempt: u32, max_retries: u32, action: &str) -> (r: EwsDecision)
    requires
        attempt < u32::MAX,
    ensures
        step_is(r.step, envelope_step(env, body@, attempt, max_retries, action@)),
        r.learned_version == envelope_version(env),
        r.success,
{
    match env {
        Ok(EnvelopeKind::Body { version }) => {
            let v = version.to_server_version();
            EwsDecision { step: EwsStep::Done(SoapResponse { body, server_version: v }), learned_version: v, success: true }
        },
        Ok(EnvelopeKind::Fault { fault, version }) => {
            let v = version.to_server_version();
            let step = match classify_fault(&fault.response_code) {
                FaultDisposition::Retryable { delay } => {
                    if attempt + 1 > max_retries {
                        let code = fault.response_code.as_wire();
                        EwsStep::Fail(EwsError::RetriesExhausted(exhausted_message(action, " kept returning ", code)))
                    } else {
                        EwsStep::Throttled { attempt: attempt + 1, delay, retry_after: false }
                    }
                },
                FaultDisposition::Auth => EwsStep::Fail(EwsError::Auth(fault.fault_string)),
                _ => EwsStep::Fail(EwsError::SoapFault { code: fault.response_code, reason: fault.fault_string }),
            };
            EwsDecision { step, learned_version: v, success: true }
        },
        Err(e) => EwsDecision { step: EwsStep::Fail(e), learned_version: None, success: true },
    }
}

/// The decision on an HTTP answer, once `attempt` retries were made.
pub fn decide_response(status: u16, body: Vec<u8>, retry_after: Option<Duration>, attempt: u32, max_retries: u32, action: &str) -> (r: EwsDecision)
    requires
        attempt < u32::MAX,
    ensures
        200 <= status < 300 ==> r.success && exists|env: Result<EnvelopeKind, EwsError>|
            {
                &&& match envelope_spec(crate::xml_stream::document_steps(body@, true), 0, no_version(), false) {
                    Ok(e) => env matches Ok(x) && envelope_matches(x, e),
                    Err(e) => env matches Err(x) && crate::exchange_ews::parse::err_matches(x, e),
                }
                &&& step_is(r.step, envelope_step(env, body@, attempt, max_retries, action@))
                &&& r.learned_version == envelope_version(env)
            },
        !(200 <= status < 300) ==> !r.success && r.learned_version is None && step_is(
            r.step,
            status_step(status, body@, retry_after, attempt, max_retries, action@),
        ),
{
    if 200 <= status && status < 300 {
        let env = read_envelope_summary(body.as_slice());
        let ghost ev = env;
        let d = decide_envelope(env, body, attempt, max_retries, action);
        assert(step_is(d.step, envelope_step(ev, body@, attempt, max_retries, action@)));
        return d;
    }
    let step = if status == 401 {
        let mut m = "server returned 401: ".to_owned();
        let t = truncate(body.as_slice());
        m.append(t.as_str());
        EwsStep::Fail(EwsError::Auth(m))
    } else if status == 403 {
        EwsStep::Fail(EwsError::HttpStatus { status: 403, body: truncate(body.as_slice()) })
    } else {
        match classify_http_status(status) {
            Disposition::Fatal => EwsStep::Fail(EwsError::HttpStatus { status, body: truncate(body.as_slice()) }),
            Disposition::Retryable => {
                if attempt + 1 > max_retries {
                    let n = decimal_string(status as u64);
                    EwsStep::Fail(EwsError::RetriesExhausted(exhausted_message(action, " kept returning http ", n.as_str())))
                } else {
                    let counts = retry_after.is_some();
                    EwsStep::Throttled { attempt: attempt + 1, delay: retry_after, retry_after: counts }
                }
            },
        }
    };
    EwsDecision { step, learned_version: None, success: false }
}

/// The decision on a transport failure, once `attempt` retries were made:
/// retry by the back-off schedule until `max_retries` retries were made,
/// then fail with the transport error.
pub fn decide_transport(err: EwsError, attempt: u32, max_retries: u32) -> (r: EwsDecision)
    requires
        attempt < u32::MAX,
    ensures
        attempt + 1 > max_retries ==> r.step == EwsStep::Fail(err),
        attempt + 1 <= max_retries ==> r.step == (EwsStep::Backoff { attempt: (attempt + 1) as u32 }),
        r.learned_version is None,
        !r.success,
{
    let step = if attempt + 1 > max_retries {
        EwsStep::Fail(err)
    } else {
        EwsStep::Backoff { attempt: attempt + 1 }
    };
    EwsDecision { step, learned_version: None, success: false }
}


/// The model of the step that a retry leads to.
pub open spec fn retry_attempt(s: EwsStepV) -> Option<u32> {
    match s {
        EwsStepV::Throttled { attempt, .. } => Some(attempt),
        EwsStepV::Backoff { attempt } => Some(attempt),
        _ => None,
    }
}

/// Every retry counts one attempt more, and no answer is retried once
/// `max_retries` retries were made: a call ends after at most
/// `max_retries + 1` tries.
pub proof fn law_retries_bounded(
    env: Result<EnvelopeKind, EwsError>,
    status: u16,
    body: Seq<u8>,
    retry_after: Option<Duration>,
    attempt: u32,
    max_retries: u32,
    action: Seq<char>,
)
    requires
        attempt < u32::MAX,
    ensures
        retry_attempt(envelope_step(env, body, attempt, max_retries, action)) matches Some(a) ==> a == attempt + 1 && a <= max_retries,
        retry_attempt(status_step(status, body, retry_after, attempt, max_retries, action)) matches Some(a) ==> a == attempt + 1 && a <= max_retries,
{
}

/// What an HTTP status other than success leads to: 401 is an authentication
/// failure and 403 fails with its status, neither retried; 429, 502, 503 and
/// 504 are retried with the next attempt (after the server's `Retry-After`
/// where it gave one) until `max_retries` retries were made, and then fail as
/// exhausted; every other status fails with its status.
pub proof fn law_status_outcomes(
    status: u16,
    body: Seq<u8>,
    retry_after: Option<Duration>,
    attempt: u32,
    max_retries: u32,
    action: Seq<char>,
)
    ensures
        ({
            let s = status_step(status, body, retry_after, attempt, max_retries, action);
            let retried = status == 429 || status == 502 || status == 503 || status == 504;
            &&& status == 401 ==> s is Fail && s->Fail_0 is Auth
            &&& (status != 401 && !retried) ==> s == EwsStepV::Fail(
                EwsErrorV::HttpStatus { status, body: truncated(body) },
            )
            &&& (retried && attempt + 1 <= max_retries) ==> s == (EwsStepV::Throttled {
                attempt: (attempt + 1) as u32,
                delay: retry_after,
                retry_after: retry_after is Some,
            })
            &&& (retried && attempt + 1 > max_retries) ==> s is Fail && s->Fail_0 is RetriesExhausted
        }),
{
}

/// What a SOAP fault leads to: a demand for authentication is an
/// authentication failure; ServerBusy is retried after the back-off it names,
/// and the passing conditions are retried at once, each until `max_retries`
/// retries were made; any other code fails with the fault itself.
pub proof fn law_fault_outcomes(code: ResponseCode, reason: Seq<char>, attempt: u32, max_retries: u32, action: Seq<char>)
    ensures
        ({
            let s = fault_step(code, reason, attempt, max_retries, action);
            let passing = code is TimeoutExpired || code is InternalServerTransientError
                || code is MailboxStoreUnavailable || code is ConnectionFailed || code is AdUnavailable
                || code is BatchProcessingStopped;
            &&& code is AuthenticationRequired ==> s == EwsStepV::Fail(EwsErrorV::Auth(reason))
            &&& (code is ServerBusy && attempt + 1 <= max_retries) ==> s == (EwsStepV::Throttled {
                attempt: (attempt + 1) as u32,
                delay: match code->back_off_ms {
                    Some(ms) => Some(crate::time::millis_duration(ms)),
                    None => None,
                },
                retry_after: false,
            })
            &&& (passing && attempt + 1 <= max_retries) ==> s == (EwsStepV::Throttled {
                attempt: (attempt + 1) as u32,
                delay: None,
                retry_after: false,
            })
            &&& ((code is ServerBusy || passing) && attempt + 1 > max_retries) ==> s is Fail && s->Fail_0 is RetriesExhausted
            &&& !(code is ServerBusy || passing || code is AuthenticationRequired) ==> s == EwsStepV::Fail(
                EwsErrorV::SoapFault { code, reason },
            )
        }),
{
}
} // verus!
