//! How EWS failures are handled: at the HTTP level, for SOAP faults and for
//! the response to each item.

use vstd::prelude::*;
use crate::exchange_ews::types::ResponseCode;
use crate::jmap::retry::{retryable_status, Disposition};

verus! {

pub fn classify_http_status(status: u16) -> (r: Disposition)
    ensures
        r == (if retryable_status(status) { Disposition::Retryable } else { Disposition::Fatal }),
{
    if status == 429 || status == 502 || status == 503 || status == 504 {
        Disposition::Retryable
    } else {
        Disposition::Fatal
    }
}

#[derive(Debug, Clone)]
pub enum FaultDisposition {
    Fatal,
    Auth,
    VersionError,
    Retryable { delay: Option<std::time::Duration> },
}

/// Codes that report a passing condition on the server side.
pub open spec fn transient_code(c: &ResponseCode) -> bool {
    c is TimeoutExpired || c is InternalServerTransientError || c is MailboxStoreUnavailable
        || c is ConnectionFailed || c is AdUnavailable || c is BatchProcessingStopped
}

/// Codes that mean the requested schema version does not fit the server.
pub open spec fn version_code(c: &ResponseCode) -> bool {
    c is InvalidServerVersion || c is IncorrectSchemaVersion || c is InvalidRequest
        || c is InvalidSchemaVersionForMailboxVersion
}

pub fn classify_fault(code: &ResponseCode) -> (r: FaultDisposition)
    ensures
        match code {
            ResponseCode::ServerBusy { back_off_ms } => r matches FaultDisposition::Retryable { delay } && delay == match back_off_ms {
                Some(ms) => Some(crate::time::millis_duration(*ms)),
                None => None,
            },
            _ => if transient_code(code) {
                r matches FaultDisposition::Retryable { delay } && delay is None
            } else if code is AuthenticationRequired {
                r is Auth
            } else if version_code(code) {
                r is VersionError
            } else {
                r is Fatal
            },
        },
{
    match code {
        ResponseCode::ServerBusy { back_off_ms } => FaultDisposition::Retryable {
            delay: match back_off_ms {
                Some(ms) => Some(crate::time::duration_from_millis(*ms)),
                None => None,
            },
        },
        ResponseCode::TimeoutExpired
        | ResponseCode::InternalServerTransientError
        | ResponseCode::MailboxStoreUnavailable
        | ResponseCode::ConnectionFailed
        | ResponseCode::AdUnavailable
        | ResponseCode::BatchProcessingStopped => FaultDisposition::Retryable { delay: None },
        ResponseCode::AuthenticationRequired => FaultDisposition::Auth,
        ResponseCode::InvalidServerVersion
        | ResponseCode::IncorrectSchemaVersion
        | ResponseCode::InvalidRequest
        | ResponseCode::InvalidSchemaVersionForMailboxVersion => FaultDisposition::VersionError,
        _ => FaultDisposition::Fatal,
    }
}

#[derive(Debug, Clone, Copy, PartialEq, Eq, Structural)]
pub enum ItemAction {
    Success,
    Vanished,
    Skip,
    Retryable,
    RetryDiscardSyncState,
}

pub open spec fn item_action(c: &ResponseCode) -> ItemAction {
    if c is NoError {
        ItemAction::Success
    } else if c is ItemNotFound || c is AttachmentNotFound {
        ItemAction::Vanished
    } else if c is ServerBusy || transient_code(c) {
        ItemAction::Retryable
    } else if c is InvalidSyncStateData {
        ItemAction::RetryDiscardSyncState
    } else {
        ItemAction::Skip
    }
}

pub fn classify_item_response(code: &ResponseCode) -> (r: ItemAction)
    ensures
        r == item_action(code),
{
    match code {
        ResponseCode::NoError => ItemAction::Success,
        ResponseCode::ItemNotFound | ResponseCode::AttachmentNotFound => ItemAction::Vanished,
        ResponseCode::ServerBusy { .. }
        | ResponseCode::TimeoutExpired
        | ResponseCode::InternalServerTransientError
        | ResponseCode::MailboxStoreUnavailable
        | ResponseCode::ConnectionFailed
        | ResponseCode::AdUnavailable
        | ResponseCode::BatchProcessingStopped => ItemAction::Retryable,
        ResponseCode::InvalidSyncStateData => ItemAction::RetryDiscardSyncState,
        ResponseCode::AccessDenied
        | ResponseCode::InvalidIdMalformed
        | ResponseCode::MimeContentConversionFailed
        | ResponseCode::ImpersonationFailed => ItemAction::Skip,
        ResponseCode::AuthenticationRequired => ItemAction::Skip,
        ResponseCode::InvalidServerVersion
        | ResponseCode::IncorrectSchemaVersion
        | ResponseCode::InvalidRequest
        | ResponseCode::InvalidSchemaVersionForMailboxVersion => ItemAction::Skip,
        ResponseCode::Other(_) => ItemAction::Skip,
    }
}

/// A code that a fault retries is retried at the item level too.
pub proof fn law_fault_retry_implies_item_retry(code: &ResponseCode)
    requires
        code is ServerBusy || transient_code(code),
    ensures
        item_action(code) == ItemAction::Retryable,
{
}

/// An item response succeeds exactly on `NoError`; the item has vanished
/// exactly when it or its attachment was not found; it is retried exactly on
/// ServerBusy or a transient code, with the sync state discarded exactly on
/// an invalid sync state; every other code skips the item.
pub proof fn law_item_actions(code: &ResponseCode)
    ensures
        item_action(code) == ItemAction::Success <==> code is NoError,
        item_action(code) == ItemAction::Vanished <==> (code is ItemNotFound || code is AttachmentNotFound),
        item_action(code) == ItemAction::Retryable <==> (code is ServerBusy || code is TimeoutExpired
            || code is InternalServerTransientError || code is MailboxStoreUnavailable || code is ConnectionFailed
            || code is AdUnavailable || code is BatchProcessingStopped),
        item_action(code) == ItemAction::RetryDiscardSyncState <==> code is InvalidSyncStateData,
{
}

} // verus!
