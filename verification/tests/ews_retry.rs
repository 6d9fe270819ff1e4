use std::time::Duration;
use vandelay::exchange_ews::retry::{
    classify_fault, classify_http_status, classify_item_response, FaultDisposition, ItemAction,
};
use vandelay::exchange_ews::types::ResponseCode;
use vandelay::jmap::retry::Disposition;

#[test]
fn server_busy_with_backoff_is_retryable_with_delay() {
    let code = ResponseCode::ServerBusy { back_off_ms: Some(297749) };
    match classify_fault(&code) {
        FaultDisposition::Retryable { delay: Some(d) } => {
            assert_eq!(d, Duration::from_millis(297749));
        }
        _ => panic!("expected retryable with delay"),
    }
}

#[test]
fn item_responses_are_classified() {
    assert_eq!(classify_item_response(&ResponseCode::NoError), ItemAction::Success);
    assert_eq!(classify_item_response(&ResponseCode::ItemNotFound), ItemAction::Vanished);
    assert_eq!(classify_item_response(&ResponseCode::AttachmentNotFound), ItemAction::Vanished);
    assert_eq!(classify_item_response(&ResponseCode::AccessDenied), ItemAction::Skip);
    assert_eq!(
        classify_item_response(&ResponseCode::InvalidSyncStateData),
        ItemAction::RetryDiscardSyncState
    );
    assert_eq!(
        classify_item_response(&ResponseCode::ServerBusy { back_off_ms: None }),
        ItemAction::Retryable
    );
}

#[test]
fn http_status_table() {
    assert_eq!(classify_http_status(429), Disposition::Retryable);
    assert_eq!(classify_http_status(503), Disposition::Retryable);
    assert_eq!(classify_http_status(500), Disposition::Fatal);
    assert_eq!(classify_http_status(401), Disposition::Fatal);
}

#[test]
fn schema_version_codes_request_a_downgrade() {
    for code in [
        ResponseCode::InvalidServerVersion,
        ResponseCode::IncorrectSchemaVersion,
        ResponseCode::InvalidRequest,
        ResponseCode::InvalidSchemaVersionForMailboxVersion,
    ] {
        assert!(matches!(classify_fault(&code), FaultDisposition::VersionError));
    }
}

#[test]
fn transient_codes_are_retryable_at_item_and_fault_level() {
    for code in [
        ResponseCode::InternalServerTransientError,
        ResponseCode::MailboxStoreUnavailable,
        ResponseCode::ConnectionFailed,
        ResponseCode::AdUnavailable,
        ResponseCode::BatchProcessingStopped,
    ] {
        assert_eq!(classify_item_response(&code), ItemAction::Retryable);
        assert!(matches!(classify_fault(&code), FaultDisposition::Retryable { .. }));
    }
}

#[test]
fn mime_content_conversion_failure_skips_item() {
    assert_eq!(
        classify_item_response(&ResponseCode::MimeContentConversionFailed),
        ItemAction::Skip
    );
}

#[test]
fn other_unknown_codes_skip_at_item_level() {
    assert_eq!(
        classify_item_response(&ResponseCode::Other("ErrorWhoKnows".to_owned())),
        ItemAction::Skip
    );
}

#[test]
fn server_busy_without_backoff_has_no_delay() {
    let code = ResponseCode::ServerBusy { back_off_ms: None };
    assert!(matches!(classify_fault(&code), FaultDisposition::Retryable { delay: None }));
}

#[test]
fn authentication_fault_and_other_fault() {
    assert!(matches!(classify_fault(&ResponseCode::AuthenticationRequired), FaultDisposition::Auth));
    assert!(matches!(classify_fault(&ResponseCode::AccessDenied), FaultDisposition::Fatal));
}

#[test]
fn gateway_statuses_are_retryable() {
    assert_eq!(classify_http_status(502), Disposition::Retryable);
    assert_eq!(classify_http_status(504), Disposition::Retryable);
    assert_eq!(classify_http_status(200), Disposition::Fatal);
}
