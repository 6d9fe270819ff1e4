//! Microsoft Graph errors.

use vstd::prelude::*;
use crate::error::Error;
use crate::text::decimal_string;

verus! {

#[derive(Debug)]
pub enum GraphError {
    OAuth(String),
    HttpStatus { status: u16, body: String },
    Auth(String),
    Transport(String),
    Connect(String),
    RetriesExhausted(String),
    Malformed(String),
    Vanished,
}

/// The crate error that a Graph error becomes: connection-level failures are
/// connection errors, malformed or vanished data a partial failure.
pub open spec fn graph_error_message(e: GraphError) -> Seq<char> {
    match e {
        GraphError::OAuth(m) => "oauth: "@ + m@,
        GraphError::Auth(m) => "auth: "@ + m@,
        GraphError::Connect(m) => m@,
        GraphError::Transport(m) => m@,
        GraphError::RetriesExhausted(m) => m@,
        GraphError::HttpStatus { status, body } => "http "@ + crate::text::decimal(status as nat) + ": "@ + body@,
        GraphError::Malformed(m) => "malformed: "@ + m@,
        GraphError::Vanished => "graph item vanished"@,
    }
}

impl GraphError {
    pub fn into_error(self) -> (r: Error)
        ensures
            (self is Malformed || self is Vanished) ==> (r matches Error::Partial(m) && m@ == graph_error_message(self)),
            !(self is Malformed || self is Vanished) ==> (r matches Error::Connection(m) && m@ == graph_error_message(self)),
    {
        match self {
            GraphError::OAuth(m) => {
                let mut s = String::new();
                s.append("oauth: ");
                s.append(m.as_str());
                Error::Connection(s)
            },
            GraphError::Auth(m) => {
                let mut s = String::new();
                s.append("auth: ");
                s.append(m.as_str());
                Error::Connection(s)
            },
            GraphError::Connect(m) => Error::Connection(m),
            GraphError::Transport(m) => Error::Connection(m),
            GraphError::RetriesExhausted(m) => Error::Connection(m),
            GraphError::HttpStatus { status, body } => {
                let mut s = String::new();
                s.append("http ");
                let d = decimal_string(status as u64);
                s.append(d.as_str());
                s.append(": ");
                s.append(body.as_str());
                Error::Connection(s)
            },
            GraphError::Malformed(m) => {
                let mut s = String::new();
                s.append("malformed: ");
                s.append(m.as_str());
                Error::Partial(s)
            },
            GraphError::Vanished => Error::Partial("graph item vanished".to_owned()),
        }
    }
}

} // verus!
