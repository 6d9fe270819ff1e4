//! Microsoft Graph mailbox kinds and request preferences.

use vstd::prelude::*;
use crate::error::Error;
use crate::text::{debug_string, debug_text, str_eq};

verus! {

#[derive(Debug, Clone, Copy, PartialEq, Eq, Structural)]
pub enum MailboxKind {
    Primary,
    Archive,
}

pub open spec fn public_folders_message() -> Seq<char> {
    "Microsoft Graph does not expose public folders. Run `vandelay import exchange-ews --mailbox-kind public-folders` instead."@
}

impl MailboxKind {
    /// Reads `--mailbox-kind`; public folders are pointed to the EWS importer.
    pub fn parse(value: &str) -> (r: Result<MailboxKind, Error>)
        ensures
            value@ == "primary"@ ==> r matches Ok(MailboxKind::Primary),
            value@ == "archive"@ ==> r matches Ok(MailboxKind::Archive),
            value@ == "public-folders"@ ==> (r matches Err(Error::Usage(m)) && m@ == public_folders_message()),
            !(value@ == "primary"@ || value@ == "archive"@ || value@ == "public-folders"@) ==> (r matches Err(
                Error::Usage(m),
            ) && m@ == "--mailbox-kind must be primary | archive, got "@ + debug_text(value@)),
    {
        proof {
            reveal_strlit("primary");
            reveal_strlit("archive");
            reveal_strlit("public-folders");
            assert("archive"@[0] != "primary"@[0]);
            assert("public-folders"@.len() != "primary"@.len());
            assert("public-folders"@.len() != "archive"@.len());
        }
        if str_eq(value, "primary") {
            Ok(MailboxKind::Primary)
        } else if str_eq(value, "archive") {
            Ok(MailboxKind::Archive)
        } else if str_eq(value, "public-folders") {
            Err(
                Error::Usage(
                    "Microsoft Graph does not expose public folders. Run `vandelay import exchange-ews --mailbox-kind public-folders` instead.".to_owned(),
                ),
            )
        } else {
            let mut m = String::new();
            m.append("--mailbox-kind must be primary | archive, got ");
            let d = debug_string(value);
            m.append(d.as_str());
            Err(Error::Usage(m))
        }
    }

    pub fn as_str(self) -> (r: &'static str)
        ensures
            r@ == match self {
                MailboxKind::Primary => "primary"@,
                MailboxKind::Archive => "archive"@,
            },
    {
        match self {
            MailboxKind::Primary => "primary",
            MailboxKind::Archive => "archive",
        }
    }
}

#[derive(Debug, Clone, Copy, PartialEq, Eq, Structural)]
pub enum EventBodyFormat {
    Text,
    Html,
}

impl EventBodyFormat {
    pub fn parse(value: &str) -> (r: Result<EventBodyFormat, Error>)
        ensures
            value@ == "text"@ ==> r matches Ok(EventBodyFormat::Text),
            value@ == "html"@ ==> r matches Ok(EventBodyFormat::Html),
            !(value@ == "text"@ || value@ == "html"@) ==> (r matches Err(Error::Usage(m)) && m@
                == "--event-body-format must be text | html, got "@ + debug_text(value@)),
    {
        proof {
            reveal_strlit("text");
            reveal_strlit("html");
            assert("text"@[0] != "html"@[0]);
        }
        if str_eq(value, "text") {
            Ok(EventBodyFormat::Text)
        } else if str_eq(value, "html") {
            Ok(EventBodyFormat::Html)
        } else {
            let mut m = String::new();
            m.append("--event-body-format must be text | html, got ");
            let d = debug_string(value);
            m.append(d.as_str());
            Err(Error::Usage(m))
        }
    }

    /// The `Prefer` header value that asks for this body format.
    pub fn prefer_value(self) -> (r: &'static str)
        ensures
            r@ == match self {
                EventBodyFormat::Text => "outlook.body-content-type=\"text\""@,
                EventBodyFormat::Html => "outlook.body-content-type=\"html\""@,
            },
    {
        match self {
            EventBodyFormat::Text => "outlook.body-content-type=\"text\"",
            EventBodyFormat::Html => "outlook.body-content-type=\"html\"",
        }
    }
}

#[derive(Debug, Clone)]
pub struct ResolvedPrincipal {
    pub id: String,
    pub user_principal_name: String,
}

/// The account id of a mailbox: the directory id, suffixed for the archive.
pub fn synthetic_account_id(directory_id: &str, kind: MailboxKind) -> (r: String)
    ensures
        r@ == match kind {
            MailboxKind::Primary => directory_id@,
            MailboxKind::Archive => directory_id@ + "#archive"@,
        },
{
    match kind {
        MailboxKind::Primary => directory_id.to_owned(),
        MailboxKind::Archive => {
            let mut s = directory_id.to_owned();
            s.append("#archive");
            s
        },
    }
}

} // verus!
