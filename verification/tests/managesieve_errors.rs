use std::io::{self, ErrorKind};
use vandelay::managesieve::error::{NoError, SieveError};
use vandelay::managesieve::retry::{classify, is_negotiation_failure, script_disposition, Disposition};

#[test]
fn transient_markers_detected_case_insensitively() {
    for s in [
        "Temporary failure",
        "Try again later",
        "Server unavailable",
        "user is rate limited",
        "Too many connections",
    ] {
        assert!(
            NoError::new(s, None).is_transient(),
            "should be transient: {s}"
        );
    }
}

#[test]
fn trylater_code_is_transient() {
    assert!(NoError::new("x", Some("TRYLATER".into())).is_transient());
}

#[test]
fn quota_code_is_permanent_per_spec() {
    assert!(!NoError::new("x", Some("QUOTA".into())).is_transient());
    assert!(!NoError::new("x", Some("QUOTA/MAXSCRIPTS".into())).is_transient());
}

#[test]
fn permanent_codes_override_text_match() {
    assert!(!NoError::new("try again later", Some("QUOTA".into())).is_transient());
    assert!(!NoError::new("temporarily", Some("AUTH-TOO-WEAK".into())).is_transient());
    assert!(!NoError::new("rate limit", Some("TRANSITION-NEEDED".into())).is_transient());
}

#[test]
fn referral_code_detected() {
    assert!(NoError::new("x", Some("REFERRAL".into())).is_referral());
    assert!(!NoError::new("x", None).is_referral());
}

#[test]
fn nonexistent_code_detected() {
    assert!(NoError::new("x", Some("NONEXISTENT".into())).is_nonexistent());
    assert!(NoError::new("x", Some("nonexistent".into())).is_nonexistent());
}

#[test]
fn non_transient_no_not_flagged() {
    assert!(!NoError::new("Permission denied", None).is_transient());
}

#[test]
fn io_errors_are_transport_drop() {
    for k in [
        ErrorKind::ConnectionReset,
        ErrorKind::ConnectionAborted,
        ErrorKind::BrokenPipe,
        ErrorKind::UnexpectedEof,
        ErrorKind::TimedOut,
    ] {
        let e = SieveError::Io(io::Error::new(k, "x"));
        assert_eq!(classify(&e), Disposition::TransportDrop, "{k:?}");
    }
}

#[test]
fn bye_is_transport_drop() {
    assert_eq!(
        classify(&SieveError::Bye("going away".into())),
        Disposition::TransportDrop
    );
}

#[test]
fn transient_no_text_marked_transient() {
    let e = SieveError::No(NoError::new("Try again later", None));
    assert_eq!(classify(&e), Disposition::Transient);
}

#[test]
fn trylater_code_marked_transient() {
    let e = SieveError::No(NoError::new("x", Some("TRYLATER".into())));
    assert_eq!(classify(&e), Disposition::Transient);
}

#[test]
fn referral_code_classified_as_referral() {
    let e = SieveError::No(NoError::new("x", Some("REFERRAL".into())));
    assert_eq!(classify(&e), Disposition::Referral);
}

#[test]
fn nonexistent_no_is_permanent_but_per_script_demotes_it() {
    let e = SieveError::No(NoError::new("no such script", Some("NONEXISTENT".into())));
    assert_eq!(classify(&e), Disposition::Permanent);
    assert_eq!(script_disposition(&e), Disposition::PerScriptRecoverable);
}

#[test]
fn negotiation_failure_matches_non_transient_no_and_unsupported() {
    assert!(is_negotiation_failure(&SieveError::Unsupported("x".into())));
    assert!(is_negotiation_failure(&SieveError::No(NoError::new(
        "no such mech",
        None
    ))));
    assert!(!is_negotiation_failure(&SieveError::No(NoError::new(
        "try again",
        None
    ))));
    assert!(!is_negotiation_failure(&SieveError::No(NoError::new(
        "x",
        Some("REFERRAL".into())
    ))));
}

#[test]
fn script_disposition_keeps_transport_and_transient_classes() {
    let e = SieveError::Bye("bye".into());
    assert_eq!(script_disposition(&e), Disposition::TransportDrop);
    let e = SieveError::No(NoError::new("try later", None));
    assert_eq!(script_disposition(&e), Disposition::Transient);
    assert_eq!(script_disposition(&SieveError::Parse("x".into())), Disposition::PerScriptRecoverable);
}
