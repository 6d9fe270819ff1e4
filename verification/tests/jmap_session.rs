use vandelay::jmap::session::well_known_url;
use vandelay::jmap::blob::BlobWalkError;
use vandelay::jmap::blob::prepend_property;
use vandelay::jmap::inflight::PermitCount;
use vandelay::jmap::session::{Account, Session};
use vandelay::jmap::session::{encode_segment, replace_all};
use vandelay::jmap::wire::JmapId;
use vandelay::json::JsonValue;

#[test]
fn well_known_appends_correctly() {
    assert_eq!(
        well_known_url("https://h.example/"),
        "https://h.example/.well-known/jmap"
    );
    assert_eq!(
        well_known_url("https://h.example"),
        "https://h.example/.well-known/jmap"
    );
}

#[test]
fn well_known_drops_every_trailing_slash() {
    assert_eq!(well_known_url("https://h.example//"), "https://h.example/.well-known/jmap");
    assert_eq!(well_known_url(""), "/.well-known/jmap");
}

fn core_capability() -> JsonValue {
    JsonValue::Object(
        vec![
            ("maxObjectsInGet", 500),
            ("maxObjectsInSet", 500),
            ("maxCallsInRequest", 16),
            ("maxConcurrentRequests", 4),
            ("maxConcurrentUpload", 4),
            ("maxSizeRequest", 10000000),
            ("maxSizeUpload", 50000000),
        ]
        .into_iter()
        .map(|(k, n)| (k.to_owned(), JsonValue::Number(n)))
        .collect(),
    )
}

/// The session of the sample session document, member by member.
fn raw_session() -> Session {
    Session {
        api_url: "https://example.org/jmap/api".to_owned(),
        upload_url: "https://example.org/jmap/upload/{accountId}/".to_owned(),
        download_url: "https://example.org/jmap/download/{accountId}/{blobId}/{type}/{name}".to_owned(),
        capabilities: vec![("urn:ietf:params:jmap:core".to_owned(), core_capability())],
        accounts: vec![(
            "w".to_owned(),
            Account {
                name: "vspec-user@example.org".to_owned(),
                account_capabilities: vec![("urn:ietf:params:jmap:mail".to_owned(), JsonValue::Object(Vec::new()))],
            },
        )],
    }
}

#[test]
fn capability_gate_reads_account_capabilities() {
    let session = raw_session();
    assert!(session.supports("w", "urn:ietf:params:jmap:mail"));
    assert!(!session.supports("w", "urn:ietf:params:jmap:filenode"));
    assert!(!session.supports("missing", "urn:ietf:params:jmap:mail"));
}

#[test]
fn templates_upload_and_download_urls_with_encoding() {
    let session = raw_session();
    assert_eq!(
        session.upload_url_for("a c"),
        "https://example.org/jmap/upload/a%20c/"
    );
    assert_eq!(
        session.download_url_for("w", "G1/2", "application/sieve", "my script"),
        "https://example.org/jmap/download/w/G1%2F2/application%2Fsieve/my%20script"
    );
}

#[test]
fn accounts_are_found_by_id() {
    let session = raw_session();
    assert_eq!(session.account("w").unwrap().name, "vspec-user@example.org");
    assert!(session.account("v").is_none());
    assert!(session.is_authenticated());
    let anonymous = Session { accounts: Vec::new(), ..raw_session() };
    assert!(!anonymous.is_authenticated());
}

#[test]
fn segments_encode_utf8_bytes_and_keep_unreserved() {
    assert_eq!(encode_segment("A-z_0.9~"), "A-z_0.9~");
    assert_eq!(encode_segment("café"), "caf%C3%A9");
    assert_eq!(replace_all("{x}{x}y{x", "{x}", "1"), "11y{x");
}

#[test]
fn permits_are_counted() {
    let mut p = PermitCount::new(0);
    assert_eq!(p.available, 1);
    assert!(p.try_acquire());
    assert!(!p.try_acquire());
    p.release();
    assert_eq!(p.available, 1);
    let mut full = PermitCount { available: u64::MAX };
    full.release();
    assert_eq!(full.available, u64::MAX);
}

#[test]
fn wire_ids_and_blob_errors() {
    let a: JmapId = JmapId::from("x1".to_owned());
    assert_eq!(a, JmapId::from_text("x1"));
    assert_eq!(a.to_string(), "x1");
    assert_eq!(BlobWalkError::Resolver("gone".to_owned()).to_string(), "blob resolver failed: gone");
    assert_eq!(
        BlobWalkError::MalformedSentinel.to_string(),
        "malformed @blob sentinel: expected integer local id"
    );
}

#[test]
fn prepend_property_puts_member_first_once() {
    let mut o = vec![
        ("a".to_owned(), JsonValue::Number(1)),
        ("k".to_owned(), JsonValue::Number(2)),
        ("b".to_owned(), JsonValue::Number(3)),
    ];
    prepend_property(&mut o, "k", JsonValue::Bool(true));
    let names: Vec<&str> = o.iter().map(|(k, _)| k.as_str()).collect();
    assert_eq!(names, vec!["k", "a", "b"]);
    assert!(matches!(o[0].1, JsonValue::Bool(true)));
}
