use vandelay::managesieve::error::SieveError;
use vandelay::managesieve::response::{
    parse_capabilities, parse_getscript, parse_listscripts, read_response, Status, Token,
};

#[test]
fn parses_greeting_with_quoted_pairs_then_ok() {
    let input = b"\"IMPLEMENTATION\" \"Test Server\"\r\n\"VERSION\" \"1.0\"\r\n\"STARTTLS\"\r\n\"SASL\" \"PLAIN LOGIN\"\r\nOK \"hello\"\r\n";
    let r = read_response(input).unwrap();
    assert_eq!(r.status.status, Status::Okay);
    assert_eq!(r.status.text, "hello");
    let caps = parse_capabilities(&r.data);
    assert_eq!(caps.implementation, Some("Test Server".to_owned()));
    assert_eq!(caps.version, Some("1.0".to_owned()));
    assert!(caps.starttls);
    assert!(caps.has_sasl("PLAIN"));
    assert!(caps.has_sasl("login"));
    assert!(!caps.has_sasl("XOAUTH2"));
}

#[test]
fn parses_listscripts_with_active_marker() {
    let input = b"\"vacation\"\r\n\"out-of-office\" ACTIVE\r\n\"forward\"\r\nOK\r\n";
    let r = read_response(input).unwrap();
    assert_eq!(r.status.status, Status::Okay);
    let list = parse_listscripts(&r.data).unwrap();
    assert_eq!(list.len(), 3);
    assert!(!list[0].active);
    assert!(list[1].active);
    assert_eq!(list[1].name, "out-of-office");
    assert!(!list[2].active);
}

#[test]
fn parses_listscripts_with_literal_name_then_active_on_same_logical_line() {
    let body = b"\x67\xc3\xa9\x6e\xc3\xa9\x72\x69\x71\x75\x65";
    let mut data: Vec<u8> = Vec::new();
    data.extend_from_slice(format!("{{{}}}\r\n", body.len()).as_bytes());
    data.extend_from_slice(body);
    data.extend_from_slice(b" ACTIVE\r\n");
    data.extend_from_slice(b"OK\r\n");
    let r = read_response(&data).unwrap();
    assert_eq!(r.status.status, Status::Okay);
    let list = parse_listscripts(&r.data).unwrap();
    assert_eq!(list.len(), 1);
    assert_eq!(list[0].name.as_bytes(), body);
    assert!(list[0].active);
}

#[test]
fn parses_getscript_literal_body() {
    let script = b"require [\"fileinto\"];\nif true { fileinto \"INBOX\"; }\n";
    let mut data: Vec<u8> = Vec::new();
    data.extend_from_slice(format!("{{{}}}\r\n", script.len()).as_bytes());
    data.extend_from_slice(script);
    data.extend_from_slice(b"\r\nOK\r\n");
    let r = read_response(&data).unwrap();
    let body = parse_getscript(&r.data).unwrap();
    assert_eq!(body, script);
}

#[test]
fn parses_getscript_quoted_one_line_body() {
    let data = b"\"stop;\"\r\nOK\r\n";
    let r = read_response(data).unwrap();
    let body = parse_getscript(&r.data).unwrap();
    assert_eq!(body, b"stop;");
}

#[test]
fn parses_no_with_code_and_text() {
    let data = b"NO (NONEXISTENT) \"no such script\"\r\n";
    let r = read_response(data).unwrap();
    assert_eq!(r.status.status, Status::No);
    assert_eq!(r.status.code.as_deref(), Some("NONEXISTENT"));
    assert_eq!(r.status.text, "no such script");
}

#[test]
fn parses_no_without_code_and_quoted_text() {
    let data = b"NO \"failed\"\r\n";
    let r = read_response(data).unwrap();
    assert_eq!(r.status.status, Status::No);
    assert!(r.status.code.is_none());
    assert_eq!(r.status.text, "failed");
}

#[test]
fn parses_bye_referral_with_code_args() {
    let data = b"BYE (REFERRAL \"sieve://other.example/\") \"go away\"\r\n";
    let r = read_response(data).unwrap();
    assert_eq!(r.status.status, Status::Bye);
    assert_eq!(r.status.code.as_deref(), Some("REFERRAL"));
    assert_eq!(r.status.text, "go away");
    assert!(r.status.code_args.unwrap().contains("other.example"));
}

#[test]
fn parses_bare_ok_response() {
    let data = b"OK\r\n";
    let r = read_response(data).unwrap();
    assert_eq!(r.status.status, Status::Okay);
    assert!(r.status.text.is_empty());
    assert!(r.data.is_empty());
}

#[test]
fn quoted_string_escapes_backslash_and_quote() {
    let mut buf: Vec<u8> = Vec::new();
    buf.extend_from_slice(b"\"a \\\"b\\\\\"\r\nOK\r\n");
    let r = read_response(&buf).unwrap();
    assert_eq!(r.data.len(), 1);
    match &r.data[0][0] {
        Token::QStr(s) => assert_eq!(s, "a \"b\\"),
        other => panic!("expected QStr, got {other:?}"),
    }
}

#[test]
fn literal_size_overflow_is_parse_error() {
    let data = b"{99999999999999999999}\r\nbody\r\nOK\r\n";
    let err = read_response(data).unwrap_err();
    assert!(matches!(err, SieveError::Parse(_)), "got {err:?}");
}

#[test]
fn unterminated_quoted_string_is_parse_error() {
    let data = b"\"unterminated\r\n";
    let err = read_response(data).unwrap_err();
    assert!(matches!(err, SieveError::Parse(_)), "got {err:?}");
}

#[test]
fn capability_atoms_recognised_without_quotes() {
    let data = b"IMPLEMENTATION \"X\"\r\nSTARTTLS\r\nSASL PLAIN\r\nOK\r\n";
    let r = read_response(data).unwrap();
    let caps = parse_capabilities(&r.data);
    assert_eq!(caps.implementation.as_deref(), Some("X"));
    assert!(caps.starttls);
    assert!(caps.has_sasl("PLAIN"));
}

#[test]
fn capability_sasl_as_multiple_unquoted_atoms_captures_every_mechanism() {
    let data = b"IMPLEMENTATION \"X\"\r\nSASL PLAIN LOGIN OAUTHBEARER\r\nOK\r\n";
    let r = read_response(data).unwrap();
    let caps = parse_capabilities(&r.data);
    assert!(caps.has_sasl("PLAIN"), "PLAIN missing: {:?}", caps.sasl);
    assert!(caps.has_sasl("LOGIN"), "LOGIN missing: {:?}", caps.sasl);
    assert!(caps.has_sasl("OAUTHBEARER"), "OAUTHBEARER missing: {:?}", caps.sasl);
}

#[test]
fn capability_sasl_as_single_quoted_string_captures_every_mechanism() {
    let data = b"\"SASL\" \"PLAIN LOGIN OAUTHBEARER\"\r\nOK\r\n";
    let r = read_response(data).unwrap();
    let caps = parse_capabilities(&r.data);
    assert!(caps.has_sasl("PLAIN"));
    assert!(caps.has_sasl("LOGIN"));
    assert!(caps.has_sasl("OAUTHBEARER"));
}

#[test]
fn quoted_string_preserves_non_ascii_utf8_bytes() {
    let name_bytes: &[u8] = b"fancy\xc3\xa7y";
    let mut data: Vec<u8> = Vec::new();
    data.push(b'"');
    data.extend_from_slice(name_bytes);
    data.push(b'"');
    data.extend_from_slice(b"\r\nOK\r\n");
    let r = read_response(&data).unwrap();
    assert_eq!(r.data.len(), 1);
    match &r.data[0][0] {
        Token::QStr(s) => assert_eq!(s.as_bytes(), name_bytes),
        other => panic!("expected QStr, got {other:?}"),
    }
}

#[test]
fn listscripts_quoted_name_with_non_ascii_is_byte_exact() {
    let mut data: Vec<u8> = Vec::new();
    data.extend_from_slice(b"\"fun\xc3\xa7y\"\r\nOK\r\n");
    let r = read_response(&data).unwrap();
    let list = parse_listscripts(&r.data).unwrap();
    assert_eq!(list.len(), 1);
    assert_eq!(list[0].name.as_bytes(), b"fun\xc3\xa7y");
}

#[test]
fn parses_two_logical_lines_with_intervening_blank_skipped() {
    let data = b"\"a\"\r\n\r\n\"b\"\r\nOK\r\n";
    let r = read_response(data).unwrap();
    assert_eq!(r.data.len(), 2);
}

#[test]
fn empty_input_is_an_error() {
    assert!(read_response(b"").is_err());
}

#[test]
fn missing_status_line_is_an_error() {
    assert!(read_response(b"\"a\"\r\n").is_err());
}

#[test]
fn getscript_without_data_is_empty() {
    let r = read_response(b"OK\r\n").unwrap();
    assert!(parse_getscript(&r.data).unwrap().is_empty());
}
