//! The crate-wide error that the command layer reports.

use vstd::prelude::*;

verus! {

#[derive(Debug)]
pub enum Error {
    /// The command line asked for something that cannot be done.
    Usage(String),
    /// The remote service could not be reached or refused the session.
    Connection(String),
    /// Part of the data could not be transferred.
    Partial(String),
}

impl Error {
    /// The message of the error.
    pub fn to_string(&self) -> (r: String)
        ensures
            r@ == match self {
                Error::Usage(m) => m@,
                Error::Connection(m) => m@,
                Error::Partial(m) => m@,
            },
    {
        match self {
            Error::Usage(m) => m.clone(),
            Error::Connection(m) => m.clone(),
            Error::Partial(m) => m.clone(),
        }
    }
}

} // verus!
