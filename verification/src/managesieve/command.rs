//! ManageSieve command lines.

use vstd::prelude::*;
use crate::managesieve::name::{encode_argument, encoded_argument};

pub use crate::managesieve::name::contains_literal;

verus! {

pub fn capability() -> (r: String)
    ensures
        r@ == "CAPABILITY\r\n"@,
{
    "CAPABILITY\r\n".to_owned()
}

pub fn starttls() -> (r: String)
    ensures
        r@ == "STARTTLS\r\n"@,
{
    "STARTTLS\r\n".to_owned()
}

pub fn noop() -> (r: String)
    ensures
        r@ == "NOOP\r\n"@,
{
    "NOOP\r\n".to_owned()
}

pub fn logout() -> (r: String)
    ensures
        r@ == "LOGOUT\r\n"@,
{
    "LOGOUT\r\n".to_owned()
}

pub fn listscripts() -> (r: String)
    ensures
        r@ == "LISTSCRIPTS\r\n"@,
{
    "LISTSCRIPTS\r\n".to_owned()
}

/// `GETSCRIPT <name>`.
pub fn getscript(name: &str) -> (r: String)
    ensures
        r@ == "GETSCRIPT "@ + encoded_argument(name@) + "\r\n"@,
{
    let mut out = String::new();
    out.append("GETSCRIPT ");
    encode_argument(name, &mut out);
    out.append("\r\n");
    out
}

/// `AUTHENTICATE <mechanism>`.
pub fn authenticate(mechanism: &str) -> (r: String)
    ensures
        r@ == "AUTHENTICATE "@ + encoded_argument(mechanism@) + "\r\n"@,
{
    let mut out = String::new();
    out.append("AUTHENTICATE ");
    encode_argument(mechanism, &mut out);
    out.append("\r\n");
    out
}

/// `AUTHENTICATE <mechanism> <initial response>`.
pub fn authenticate_with_initial(mechanism: &str, initial_b64: &str) -> (r: String)
    ensures
        r@ == "AUTHENTICATE "@ + encoded_argument(mechanism@) + " "@ + encoded_argument(
            initial_b64@,
        ) + "\r\n"@,
{
    let mut out = String::new();
    out.append("AUTHENTICATE ");
    encode_argument(mechanism, &mut out);
    out.append(" ");
    encode_argument(initial_b64, &mut out);
    out.append("\r\n");
    out
}

/// A client response to a SASL continuation.
pub fn continuation_payload(initial_b64: &str) -> (r: String)
    ensures
        r@ == encoded_argument(initial_b64@) + "\r\n"@,
{
    let mut out = String::new();
    encode_argument(initial_b64, &mut out);
    out.append("\r\n");
    out
}

} // verus!
