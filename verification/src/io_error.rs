//! The transport error type that protocol errors carry.

use vstd::prelude::*;

verus! {

/// `std::io::Error`, carried through unchanged.
#[verifier::external_type_specification]
#[verifier::external_body]
pub struct ExIoError(std::io::Error);

/// `std::io::Error::new(ErrorKind::UnexpectedEof, msg)`: an end-of-stream error.
/// Nothing is claimed of the value beyond its existence.
#[verifier::external_body]
pub fn unexpected_eof(msg: &str) -> std::io::Error {
    std::io::Error::new(std::io::ErrorKind::UnexpectedEof, msg.to_owned())
}

} // verus!
