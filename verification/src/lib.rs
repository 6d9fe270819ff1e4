use vstd::prelude::*;

pub mod dav;
pub mod error;
pub mod exchange;
pub mod exchange_ews;
pub mod exchange_graph;
pub mod imap;
pub mod io_error;
pub mod jmap;
pub mod json;
pub mod logging;
pub mod secret;
pub mod managesieve;
pub mod text;
pub mod time;
pub mod xml_stream;

verus! {

} // verus!
