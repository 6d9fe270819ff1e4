//! EWS errors and their messages.

use vstd::prelude::*;
use crate::error::Error;
use crate::exchange_ews::types::{wire_name, ResponseCode};
use crate::text::decimal;

verus! {

#[derive(Debug)]
pub enum EwsError {
    Transport(String),
    Connect(String),
    Auth(String),
    HttpStatus { status: u16, body: String },
    RetriesExhausted(String),
    SoapFault { code: ResponseCode, reason: String },
    Malformed(String),
    Unsupported(String),
    AutodiscoverFailed(String),
    AutodiscoverLoop,
    OAuth(String),
    Xml(String),
}

/// The text of an error.
pub open spec fn ews_message(e: EwsError) -> Seq<char> {
    match e {
        EwsError::Transport(m) => "transport: "@ + m@,
        EwsError::Connect(m) => "connection: "@ + m@,
        EwsError::Auth(m) => "authentication rejected: "@ + m@,
        EwsError::HttpStatus { status, body } => "http "@ + decimal(status as nat) + ": "@ + body@,
        EwsError::RetriesExhausted(m) => "retries exhausted: "@ + m@,
        EwsError::SoapFault { code, reason } => "soap fault "@ + wire_name(&code) + ": "@ + reason@,
        EwsError::Malformed(m) => "malformed EWS response: "@ + m@,
        EwsError::Unsupported(m) => "EWS schema unsupported: "@ + m@,
        EwsError::AutodiscoverFailed(m) => "autodiscover failed: "@ + m@,
        EwsError::AutodiscoverLoop => "autodiscover redirect loop"@,
        EwsError::OAuth(m) => "oauth: "@ + m@,
        EwsError::Xml(m) => "xml: "@ + m@,
    }
}

fn prefixed(prefix: &str, m: &str) -> (r: String)
    ensures
        r@ == prefix@ + m@,
{
    let mut s = String::new();
    s.append(prefix);
    s.append(m);
    s
}

impl EwsError {
    /// The text of the error.
    pub fn to_string(&self) -> (r: String)
        ensures
            r@ == ews_message(*self),
    {
        match self {
            EwsError::Transport(m) => prefixed("transport: ", m.as_str()),
            EwsError::Connect(m) => prefixed("connection: ", m.as_str()),
            EwsError::Auth(m) => prefixed("authentication rejected: ", m.as_str()),
            EwsError::HttpStatus { status, body } => {
                let mut s = String::new();
                s.append("http ");
                let d = crate::text::decimal_string(*status as u64);
                s.append(d.as_str());
                s.append(": ");
                s.append(body.as_str());
                s
            },
            EwsError::RetriesExhausted(m) => prefixed("retries exhausted: ", m.as_str()),
            EwsError::SoapFault { code, reason } => {
                let mut s = String::new();
                s.append("soap fault ");
                s.append(code.as_wire());
                s.append(": ");
                s.append(reason.as_str());
                s
            },
            EwsError::Malformed(m) => prefixed("malformed EWS response: ", m.as_str()),
            EwsError::Unsupported(m) => prefixed("EWS schema unsupported: ", m.as_str()),
            EwsError::AutodiscoverFailed(m) => prefixed("autodiscover failed: ", m.as_str()),
            EwsError::AutodiscoverLoop => "autodiscover redirect loop".to_owned(),
            EwsError::OAuth(m) => prefixed("oauth: ", m.as_str()),
            EwsError::Xml(m) => prefixed("xml: ", m.as_str()),
        }
    }

    /// The crate error that an EWS error is reported as: a schema the server
    /// does not support is a usage error, everything else a connection error.
    pub fn into_error(self) -> (r: Error)
        ensures
            match self {
                EwsError::Connect(m) | EwsError::Transport(m) => r matches Error::Connection(x) && x@ == m@,
                EwsError::Unsupported(m) => r matches Error::Usage(x) && x@ == m@,
                _ => r matches Error::Connection(x) && x@ == ews_message(self),
            },
    {
        match self {
            EwsError::Connect(m) | EwsError::Transport(m) => Error::Connection(m),
            EwsError::Unsupported(m) => Error::Usage(m),
            other => Error::Connection(other.to_string()),
        }
    }
}

} // verus!
