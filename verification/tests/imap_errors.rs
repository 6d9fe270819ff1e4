use std::io::{self, ErrorKind};
use std::time::Duration;
use vandelay::imap::error::{ImapError, NoError};
use vandelay::imap::retry::{
    classify, folder_disposition, is_negotiation_failure, message_disposition, BackoffState,
    Disposition, SHARED_BASE_MS, SHARED_CAP_MS, TRANSPORT_BASE_MS, TRANSPORT_CAP_MS,
};

#[test]
fn error_transient_markers_detected_case_insensitively() {
    for s in [
        "Temporary failure",
        "Try again later",
        "Server unavailable",
        "OVER QUOTA",
        "user is rate limited",
        "Too many connections",
    ] {
        assert!(NoError::new(s, None).is_transient(), "should be transient: {s}");
    }
}

#[test]
fn non_transient_markers_not_flagged() {
    for s in ["Mailbox does not exist", "Permission denied", "Invalid argument"] {
        assert!(!NoError::new(s, None).is_transient(), "should NOT be transient: {s}");
    }
}

#[test]
fn auth_failed_codes_detected() {
    assert!(NoError::new("x", Some("AUTHENTICATIONFAILED".into())).is_auth_failed());
    assert!(NoError::new("x", Some("PRIVACYREQUIRED".into())).is_auth_failed());
    assert!(!NoError::new("x", Some("ALERT".into())).is_auth_failed());
    assert!(!NoError::new("x", None).is_auth_failed());
}

#[test]
fn transport_errors_are_transport_drop() {
    for k in [
        ErrorKind::ConnectionReset,
        ErrorKind::ConnectionAborted,
        ErrorKind::BrokenPipe,
        ErrorKind::UnexpectedEof,
        ErrorKind::TimedOut,
    ] {
        let e = ImapError::Io(io::Error::new(k, "x"));
        assert_eq!(classify(&e), Disposition::TransportDrop, "{k:?}");
    }
}

#[test]
fn retry_bye_is_transport_drop() {
    assert_eq!(classify(&ImapError::Bye("going away".into())), Disposition::TransportDrop);
}

#[test]
fn auth_failed_classified_separately() {
    let e = ImapError::AuthFailed("bad creds".into());
    assert_eq!(classify(&e), Disposition::AuthFailed);
    let e = ImapError::No(NoError::new("x", Some("AUTHENTICATIONFAILED".into())));
    assert_eq!(classify(&e), Disposition::AuthFailed);
}

#[test]
fn retry_transient_no_text_marked_transient() {
    let e = ImapError::No(NoError::new("Try again later", None));
    assert_eq!(classify(&e), Disposition::Transient);
    let e = ImapError::No(NoError::new("user over quota", None));
    assert_eq!(classify(&e), Disposition::Transient);
}

#[test]
fn non_transient_no_is_permanent() {
    let e = ImapError::No(NoError::new("mailbox does not exist", None));
    assert_eq!(classify(&e), Disposition::Permanent);
}

#[test]
fn bad_is_feature_negotiation() {
    let e = ImapError::Bad("unrecognised command".into());
    assert_eq!(classify(&e), Disposition::FeatureNegotiation);
}

#[test]
fn protocol_is_transport_drop() {
    assert_eq!(classify(&ImapError::Protocol("x".into())), Disposition::TransportDrop);
}

#[test]
fn parse_is_permanent() {
    assert_eq!(classify(&ImapError::Parse("x".into())), Disposition::Permanent);
}

#[test]
fn folder_disposition_lifts_permanent_to_per_folder() {
    let e = ImapError::No(NoError::new("no such mailbox", None));
    assert_eq!(folder_disposition(&e), Disposition::PerFolderPermanent);
}

#[test]
fn folder_disposition_keeps_transient_class() {
    let e = ImapError::No(NoError::new("try again", None));
    assert_eq!(folder_disposition(&e), Disposition::Transient);
}

#[test]
fn message_disposition_demotes_permanent_to_per_message() {
    let e = ImapError::Parse("bad fetch".into());
    assert_eq!(message_disposition(&e), Disposition::PerMessageRecoverable);
}

#[test]
fn shared_delay_grows_with_consecutive_throttles() {
    let s = BackoffState::new();
    let d1 = s.next_shared_delay();
    let d3 = {
        let _ = s.next_shared_delay();
        s.next_shared_delay()
    };
    assert!(d1 <= Duration::from_millis(SHARED_BASE_MS));
    assert!(d3 >= d1, "expected non-decreasing delay, got {d1:?} -> {d3:?}");
    assert!(d3 <= Duration::from_millis(SHARED_CAP_MS));
}

#[test]
fn shared_delay_caps_at_cap_ms() {
    let s = BackoffState::new();
    for _ in 0..40 {
        let _ = s.next_shared_delay();
    }
    let d = s.next_shared_delay();
    assert!(d <= Duration::from_millis(SHARED_CAP_MS));
}

#[test]
fn reset_clears_level() {
    let s = BackoffState::new();
    let _ = s.next_shared_delay();
    let _ = s.next_shared_delay();
    assert!(s.current_level() > 0);
    s.reset();
    assert_eq!(s.current_level(), 0);
}

#[test]
fn transport_delay_does_not_touch_shared_level() {
    let s = BackoffState::new();
    let _ = s.transport_delay(1);
    let _ = s.transport_delay(2);
    let _ = s.transport_delay(3);
    assert_eq!(s.current_level(), 0, "transport delays are local");
}

#[test]
fn transport_delay_bounded() {
    let s = BackoffState::new();
    let d1 = s.transport_delay(1);
    let d6 = s.transport_delay(6);
    assert!(d1 <= Duration::from_millis(TRANSPORT_BASE_MS));
    assert!(d6 <= Duration::from_millis(TRANSPORT_CAP_MS));
}

#[test]
fn shared_state_is_cloneable_and_shared() {
    let a = BackoffState::new();
    let b = a.clone();
    let _ = a.next_shared_delay();
    assert_eq!(a.current_level(), b.current_level());
}

#[test]
fn is_negotiation_failure_matches_bad_unsupported_and_nontransient_no() {
    assert!(is_negotiation_failure(&ImapError::Bad("x".into())));
    assert!(is_negotiation_failure(&ImapError::Unsupported("x".into())));
    assert!(is_negotiation_failure(&ImapError::No(NoError::new("no such mailbox", None))));
}

#[test]
fn is_negotiation_failure_excludes_transient_no_and_others() {
    assert!(!is_negotiation_failure(&ImapError::No(NoError::new("try again later", None))));
    assert!(!is_negotiation_failure(&ImapError::Bye("x".into())));
    assert!(!is_negotiation_failure(&ImapError::Disconnected));
}

#[test]
fn transient_retries_counter_increments_on_shared_delay() {
    let s = BackoffState::new();
    assert_eq!(s.transient_retries(), 0);
    let _ = s.next_shared_delay();
    let _ = s.next_shared_delay();
    assert_eq!(s.transient_retries(), 2);
}

#[test]
fn transport_retries_counter_increments_on_transport_delay() {
    let s = BackoffState::new();
    assert_eq!(s.transport_retries(), 0);
    let _ = s.transport_delay(1);
    let _ = s.transport_delay(2);
    assert_eq!(s.transport_retries(), 2);
}
