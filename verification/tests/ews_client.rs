use std::time::Duration;
use vandelay::exchange_ews::client::{decide_response, decide_transport, truncate, EwsStep};
use vandelay::exchange_ews::error::EwsError;
use vandelay::exchange_ews::types::{ResponseCode, ServerVersion};

const NS: &str = " xmlns:soap=\"http://schemas.xmlsoap.org/soap/envelope/\" \
                  xmlns:t=\"http://schemas.microsoft.com/exchange/services/2006/types\" \
                  xmlns:m=\"http://schemas.microsoft.com/exchange/services/2006/messages\"";

#[test]
fn ok_body_is_returned_with_announced_version() {
    let body = format!(
        "<soap:Envelope{NS}><soap:Header><t:ServerVersionInfo MajorVersion=\"15\" MinorVersion=\"1\"/></soap:Header>\
         <soap:Body><m:FindFolderResponse/></soap:Body></soap:Envelope>"
    );
    let d = decide_response(200, body.clone().into_bytes(), None, 0, 3, "\"FindFolder\"");
    assert!(d.success);
    assert_eq!(d.learned_version, Some(ServerVersion::Exchange2016));
    match d.step {
        EwsStep::Done(r) => {
            assert_eq!(r.body, body.into_bytes());
            assert_eq!(r.server_version, Some(ServerVersion::Exchange2016));
        }
        other => panic!("unexpected {other:?}"),
    }
}

#[test]
fn busy_fault_is_throttled_with_server_delay_then_exhausted() {
    let body = format!(
        "<soap:Envelope{NS}><soap:Body><soap:Fault><faultcode>soap:Server</faultcode><faultstring>busy</faultstring>\
         <detail><m:ResponseCode>ErrorServerBusy</m:ResponseCode>\
         <t:MessageXml><t:Value Name=\"BackOffMilliseconds\">1500</t:Value></t:MessageXml></detail>\
         </soap:Fault></soap:Body></soap:Envelope>"
    );
    let d = decide_response(200, body.clone().into_bytes(), None, 0, 2, "GetItem");
    match d.step {
        EwsStep::Throttled { attempt, delay, retry_after } => {
            assert_eq!(attempt, 1);
            assert_eq!(delay, Some(Duration::from_millis(1500)));
            assert!(!retry_after);
        }
        other => panic!("unexpected {other:?}"),
    }
    let d = decide_response(200, body.into_bytes(), None, 2, 2, "GetItem");
    match d.step {
        EwsStep::Fail(EwsError::RetriesExhausted(m)) => assert_eq!(m, "GetItem kept returning ErrorServerBusy"),
        other => panic!("unexpected {other:?}"),
    }
}

#[test]
fn auth_fault_and_fatal_fault_fail_at_once() {
    let auth = format!(
        "<soap:Envelope{NS}><soap:Body><soap:Fault><faultcode>soap:Client</faultcode><faultstring>who are you</faultstring>\
         <detail><m:ResponseCode>ErrorAuthenticationRequired</m:ResponseCode></detail></soap:Fault></soap:Body></soap:Envelope>"
    );
    match decide_response(200, auth.into_bytes(), None, 0, 5, "x").step {
        EwsStep::Fail(EwsError::Auth(m)) => assert_eq!(m, "who are you"),
        other => panic!("unexpected {other:?}"),
    }
    let fatal = format!(
        "<soap:Envelope{NS}><soap:Body><soap:Fault><faultcode>soap:Client</faultcode><faultstring>denied</faultstring>\
         <detail><m:ResponseCode>ErrorAccessDenied</m:ResponseCode></detail></soap:Fault></soap:Body></soap:Envelope>"
    );
    match decide_response(200, fatal.into_bytes(), None, 0, 5, "x").step {
        EwsStep::Fail(EwsError::SoapFault { code, reason }) => {
            assert!(matches!(code, ResponseCode::AccessDenied));
            assert_eq!(reason, "denied");
        }
        other => panic!("unexpected {other:?}"),
    }
}

#[test]
fn http_statuses_are_decided() {
    match decide_response(401, b"nope".to_vec(), None, 0, 3, "x").step {
        EwsStep::Fail(EwsError::Auth(m)) => assert_eq!(m, "server returned 401: nope"),
        other => panic!("unexpected {other:?}"),
    }
    match decide_response(403, b"forbidden".to_vec(), None, 0, 3, "x").step {
        EwsStep::Fail(EwsError::HttpStatus { status, body }) => {
            assert_eq!(status, 403);
            assert_eq!(body, "forbidden");
        }
        other => panic!("unexpected {other:?}"),
    }
    match decide_response(500, b"oops".to_vec(), None, 0, 3, "x").step {
        EwsStep::Fail(EwsError::HttpStatus { status, .. }) => assert_eq!(status, 500),
        other => panic!("unexpected {other:?}"),
    }
    let d = decide_response(503, Vec::new(), Some(Duration::from_secs(2)), 1, 3, "x");
    assert!(!d.success);
    match d.step {
        EwsStep::Throttled { attempt, delay, retry_after } => {
            assert_eq!(attempt, 2);
            assert_eq!(delay, Some(Duration::from_secs(2)));
            assert!(retry_after);
        }
        other => panic!("unexpected {other:?}"),
    }
    match decide_response(429, Vec::new(), None, 3, 3, "Sync").step {
        EwsStep::Fail(EwsError::RetriesExhausted(m)) => assert_eq!(m, "Sync kept returning http 429"),
        other => panic!("unexpected {other:?}"),
    }
}

#[test]
fn transport_failures_back_off_then_give_up() {
    match decide_transport(EwsError::Transport("reset".to_owned()), 0, 1).step {
        EwsStep::Backoff { attempt } => assert_eq!(attempt, 1),
        other => panic!("unexpected {other:?}"),
    }
    match decide_transport(EwsError::Transport("reset".to_owned()), 1, 1).step {
        EwsStep::Fail(EwsError::Transport(m)) => assert_eq!(m, "reset"),
        other => panic!("unexpected {other:?}"),
    }
}

#[test]
fn truncate_cuts_long_bodies_at_a_character_boundary() {
    assert_eq!(truncate(b"short"), "short");
    let long = "a".repeat(600);
    let t = truncate(long.as_bytes());
    assert_eq!(t.len(), 515);
    assert!(t.ends_with("..."));
    let mut mixed = "a".repeat(511);
    mixed.push('é');
    mixed.push_str("tail");
    let t = truncate(mixed.as_bytes());
    assert_eq!(t, format!("{}...", "a".repeat(511)));
}
