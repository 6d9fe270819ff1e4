//! The JMAP objects this crate exchanges with a server, as plain data.
use vstd::prelude::*;

verus! {

/// A JMAP id.
#[derive(Debug, Clone, PartialEq, Eq, Hash)]
pub struct JmapId(pub String);

impl From<String> for JmapId {
    fn from(value: String) -> (r: JmapId) {
        JmapId(value)
    }
}

impl vstd::std_specs::convert::FromSpecImpl<String> for JmapId {
    open spec fn obeys_from_spec() -> bool {
        true
    }

    open spec fn from_spec(value: String) -> JmapId {
        JmapId(value)
    }
}

impl JmapId {
    /// The id of a text.
    pub fn from_text(value: &str) -> (r: JmapId)
        ensures
            r.0@ == value@,
    {
        JmapId(value.to_owned())
    }

    /// The text of the id.
    pub fn to_string(&self) -> (r: String)
        ensures
            r@ == self.0@,
    {
        self.0.clone()
    }
}

/// A mailbox address with an optional display name.
#[derive(Debug, Clone)]
pub struct EmailAddress {
    pub name: Option<String>,
    pub email: String,
}

/// A sending identity.
#[derive(Debug, Clone)]
pub struct Identity {
    pub id: Option<JmapId>,
    pub name: String,
    pub email: String,
    pub reply_to: Option<Vec<EmailAddress>>,
    pub bcc: Option<Vec<EmailAddress>>,
    pub text_signature: String,
    pub html_signature: String,
}

/// A Sieve script stored as a blob.
#[derive(Debug, Clone)]
pub struct SieveScript {
    pub id: Option<JmapId>,
    pub name: Option<String>,
    pub blob_id: JmapId,
    pub is_active: bool,
}

/// An address book.
#[derive(Debug, Clone)]
pub struct AddressBook {
    pub id: Option<JmapId>,
    pub name: String,
    pub description: Option<String>,
    pub sort_order: u32,
    pub is_default: bool,
    pub is_subscribed: bool,
}

/// Whether an address book is subscribed when the server does not say.
pub fn default_true() -> (r: bool)
    ensures
        r,
{
    true
}

/// The kind of a file-system node.
#[derive(Debug, Clone, Copy, PartialEq, Eq, Structural)]
pub enum NodeType {
    File,
    Directory,
    Symlink,
}

} // verus!
