use vandelay::exchange_graph::retry::{classify_http_status, is_throttled, HttpClass};
use vandelay::exchange_graph::types::{synthetic_account_id, EventBodyFormat, MailboxKind};

#[test]
fn rate_limit_status_is_retryable() {
    assert_eq!(classify_http_status(429), HttpClass::Retryable);
    assert!(is_throttled(429));
}

#[test]
fn service_unavailable_is_retryable_and_throttle_marked() {
    assert_eq!(classify_http_status(503), HttpClass::Retryable);
    assert!(is_throttled(503));
}

#[test]
fn bad_gateway_and_timeout_retry() {
    assert_eq!(classify_http_status(502), HttpClass::Retryable);
    assert_eq!(classify_http_status(504), HttpClass::Retryable);
}

#[test]
fn insufficient_storage_is_per_item_fatal() {
    assert_eq!(classify_http_status(507), HttpClass::Fatal);
}

#[test]
fn auth_failure_is_marked_distinctly() {
    assert_eq!(classify_http_status(401), HttpClass::Auth);
    assert_eq!(classify_http_status(403), HttpClass::Auth);
}

#[test]
fn not_found_and_gone_are_vanished() {
    assert_eq!(classify_http_status(404), HttpClass::Vanished);
    assert_eq!(classify_http_status(410), HttpClass::Vanished);
}

#[test]
fn unknown_4xx_is_fatal() {
    assert_eq!(classify_http_status(400), HttpClass::Fatal);
    assert_eq!(classify_http_status(405), HttpClass::Fatal);
    assert_eq!(classify_http_status(408), HttpClass::Fatal);
    assert_eq!(classify_http_status(422), HttpClass::Fatal);
    assert_eq!(classify_http_status(423), HttpClass::Fatal);
}

#[test]
fn gateway_errors_are_not_throttles() {
    assert!(!is_throttled(502));
    assert!(!is_throttled(504));
    assert!(!is_throttled(200));
}

#[test]
fn success_is_success() {
    assert_eq!(classify_http_status(200), HttpClass::Success);
    assert_eq!(classify_http_status(204), HttpClass::Success);
}

#[test]
fn parses_primary_and_archive() {
    assert_eq!(MailboxKind::parse("primary").unwrap(), MailboxKind::Primary);
    assert_eq!(MailboxKind::parse("archive").unwrap(), MailboxKind::Archive);
}

#[test]
fn public_folders_is_redirected_to_ews() {
    let err = MailboxKind::parse("public-folders").unwrap_err();
    let msg = err.to_string();
    assert!(msg.contains("public folders"));
    assert!(msg.contains("exchange-ews"));
}

#[test]
fn unknown_mailbox_kind_is_rejected() {
    assert!(MailboxKind::parse("shared").is_err());
}

#[test]
fn synthetic_id_matches_ews_pattern() {
    assert_eq!(synthetic_account_id("u-uuid", MailboxKind::Primary), "u-uuid");
    assert_eq!(synthetic_account_id("u-uuid", MailboxKind::Archive), "u-uuid#archive");
}

#[test]
fn body_format_prefer_value() {
    assert_eq!(EventBodyFormat::Text.prefer_value(), "outlook.body-content-type=\"text\"");
    assert_eq!(EventBodyFormat::Html.prefer_value(), "outlook.body-content-type=\"html\"");
}

#[test]
fn body_format_parse() {
    assert_eq!(EventBodyFormat::parse("text").unwrap(), EventBodyFormat::Text);
    assert_eq!(EventBodyFormat::parse("html").unwrap(), EventBodyFormat::Html);
    assert!(EventBodyFormat::parse("rtf").is_err());
}
