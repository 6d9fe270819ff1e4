use vandelay::managesieve::command::{
    authenticate, authenticate_with_initial, capability, contains_literal, continuation_payload,
    getscript,
};
use vandelay::managesieve::name::{can_be_quoted, encode_argument};

fn encoded(s: &str) -> String {
    let mut out = String::new();
    encode_argument(s, &mut out);
    out
}

#[test]
fn ascii_round_trips_as_quoted_string() {
    assert_eq!(encoded("vacation"), "\"vacation\"");
    assert_eq!(encoded(""), "\"\"");
}

#[test]
fn quotes_and_backslashes_are_escaped() {
    assert_eq!(encoded("a\"b"), "\"a\\\"b\"");
    assert_eq!(encoded("a\\b"), "\"a\\\\b\"");
}

#[test]
fn non_ascii_promotes_to_literal_with_byte_exact_body() {
    let name = "fancy\u{00e7}y";
    let out = encoded(name);
    let in_bytes = name.as_bytes();
    let header = format!("{{{}+}}\r\n", in_bytes.len());
    assert!(out.starts_with(&header), "got {out:?}");
    let body = &out.as_bytes()[header.len()..];
    assert_eq!(body, in_bytes, "literal body must be byte-exact UTF-8");
    assert_eq!(body.len(), in_bytes.len());
}

#[test]
fn literal_length_matches_payload_byte_count_for_multibyte_runs() {
    for s in [
        "\u{00e7}",
        "na\u{00ef}ve",
        "\u{4e2d}\u{6587}",
        "mix-\u{00e9}\u{00e0}\u{00f6}",
    ] {
        let out = encoded(s);
        let wire = out.as_bytes();
        let header = format!("{{{}+}}\r\n", s.len());
        assert!(
            wire.starts_with(header.as_bytes()),
            "expected header {header:?} for {s:?}, got {out:?}"
        );
        let body = &wire[header.len()..];
        assert_eq!(body, s.as_bytes(), "literal body must equal input bytes");
    }
}

#[test]
fn crlf_in_name_promotes_to_literal() {
    let out = encoded("with\nline");
    assert!(out.starts_with('{'));
    assert!(out.contains("+}\r\n"));
    let header = format!("{{{}+}}\r\n", "with\nline".len());
    assert!(out.starts_with(&header));
}

#[test]
fn tab_is_allowed_in_quoted_string() {
    assert!(can_be_quoted(b"abc\tdef"));
}

#[test]
fn nul_byte_forces_literal() {
    assert!(!can_be_quoted(b"a\0b"));
}

#[test]
fn names_over_quoted_threshold_use_literal() {
    let long: Vec<u8> = (0..2048).map(|_| b'x').collect();
    assert!(!can_be_quoted(&long));
}

#[test]
fn name_contains_literal_detects_open_brace() {
    assert!(contains_literal(b"GETSCRIPT {3+}\r\nabc\r\n"));
    assert!(!contains_literal(b"GETSCRIPT \"abc\"\r\n"));
}

#[test]
fn capability_is_uppercase_with_crlf() {
    assert_eq!(capability(), "CAPABILITY\r\n");
}

#[test]
fn getscript_quoted_for_ascii_names() {
    assert_eq!(getscript("vacation"), "GETSCRIPT \"vacation\"\r\n");
}

#[test]
fn getscript_escapes_quotes_and_backslashes() {
    let out = getscript("a\"b\\c");
    assert!(out.contains("\\\""));
    assert!(out.contains("\\\\"));
}

#[test]
fn getscript_uses_literal_for_non_ascii() {
    let name = "fancy\u{00e7}y";
    let out = getscript(name);
    let nbytes = name.len();
    let expected = {
        let mut v: Vec<u8> = Vec::new();
        v.extend_from_slice(format!("GETSCRIPT {{{nbytes}+}}\r\n").as_bytes());
        v.extend_from_slice(name.as_bytes());
        v.extend_from_slice(b"\r\n");
        v
    };
    assert_eq!(
        out.as_bytes(),
        expected.as_slice(),
        "GETSCRIPT wire bytes for non-ascii name must be byte-exact"
    );
}

#[test]
fn getscript_uses_literal_for_names_containing_crlf() {
    let name = "with\nlinebreak";
    let out = getscript(name);
    assert!(
        out.contains("{") && out.contains("+}\r\n"),
        "expected literal for newline-bearing name: {out:?}"
    );
}

#[test]
fn authenticate_with_initial_emits_two_arguments() {
    let out = authenticate_with_initial("PLAIN", "AGZvbwBiYXI=");
    assert_eq!(out, "AUTHENTICATE \"PLAIN\" \"AGZvbwBiYXI=\"\r\n");
}

#[test]
fn authenticate_without_initial_emits_one_argument() {
    let out = authenticate("LOGIN");
    assert_eq!(out, "AUTHENTICATE \"LOGIN\"\r\n");
}

#[test]
fn continuation_payload_quotes_simple_base64() {
    assert_eq!(continuation_payload("Zm9v"), "\"Zm9v\"\r\n");
}

#[test]
fn command_contains_literal_detects_open_brace() {
    assert!(contains_literal(b"GETSCRIPT {3+}\r\nabc\r\n"));
    assert!(!contains_literal(b"GETSCRIPT \"abc\"\r\n"));
}

#[test]
fn literal_header_counts_bytes_not_characters() {
    // two characters, four bytes
    assert_eq!(encoded("\u{00e9}\u{00e9}"), "{4+}\r\n\u{00e9}\u{00e9}");
    assert_eq!(encoded(&"y".repeat(1025)), format!("{{1025+}}\r\n{}", "y".repeat(1025)));
}

#[test]
fn quoted_argument_reads_back_through_the_response_reader() {
    for name in ["vacation", "a\"b", "back\\slash", "tab\there", ""] {
        let wire = format!("OK {}\r\n", encoded(name));
        let r = vandelay::managesieve::response::read_response(wire.as_bytes()).unwrap();
        assert_eq!(r.status.text, name);
    }
}

#[test]
fn literal_argument_reads_back_as_its_bytes() {
    for name in ["fancy\u{00e7}y", "with\nline", "\u{4e2d}\u{6587}"] {
        let wire = format!("{}\r\nOK\r\n", encoded(name));
        let r = vandelay::managesieve::response::read_response(wire.as_bytes()).unwrap();
        assert_eq!(r.data.len(), 1);
        assert_eq!(r.data[0].len(), 1);
        match &r.data[0][0] {
            vandelay::managesieve::response::Token::Literal(b) => assert_eq!(b.as_slice(), name.as_bytes()),
            _ => panic!("expected a literal"),
        }
    }
}
