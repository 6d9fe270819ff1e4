use vandelay::dav::href::{last_path_component, parent_collection, Href};
use vandelay::dav::retry::{classify, DavOutcome};
use vandelay::dav::xml::{
    addressbook_multiget, calendar_multiget, propfind_addressbook_home_set,
    propfind_calendar_home_set, propfind_current_user_principal, propfind_webdav_listing,
};

#[test]
fn last_path_component_decodes() {
    let h = Href::from_normalised("/dav/cal/user/event%201.ics".to_owned());
    assert_eq!(last_path_component(&h), "event 1.ics");
}

#[test]
fn parent_collection_strips_trailing_slash() {
    let h = Href::from_normalised("/dav/cal/user/sub/".to_owned());
    assert_eq!(parent_collection(&h).as_str(), "/dav/cal/user/");
}

#[test]
fn parent_collection_of_file_is_parent_dir() {
    let h = Href::from_normalised("/dav/cal/user/file.ics".to_owned());
    assert_eq!(parent_collection(&h).as_str(), "/dav/cal/user/");
}

#[test]
fn parent_collection_of_root_is_root() {
    let h = Href::from_normalised("/".to_owned());
    assert_eq!(parent_collection(&h).as_str(), "/");
}

#[test]
fn success_range() {
    assert_eq!(classify(200, b""), DavOutcome::Success);
    assert_eq!(classify(207, b""), DavOutcome::Success);
    assert_eq!(classify(299, b""), DavOutcome::Success);
}

#[test]
fn auth_status() {
    assert_eq!(classify(401, b""), DavOutcome::Auth);
    assert_eq!(classify(403, b""), DavOutcome::Auth);
}

#[test]
fn vanished_status() {
    assert_eq!(classify(404, b""), DavOutcome::Vanished);
    assert_eq!(classify(410, b""), DavOutcome::Vanished);
}

#[test]
fn locked_and_quota_are_retryable() {
    assert_eq!(classify(423, b""), DavOutcome::Retryable);
    assert_eq!(classify(429, b""), DavOutcome::Retryable);
    assert_eq!(classify(503, b""), DavOutcome::Retryable);
    assert_eq!(classify(507, b""), DavOutcome::Retryable);
}

#[test]
fn google_usage_limit_403_is_retryable() {
    let body = br#"{"error":{"errors":[{"domain":"usageLimits","reason":"rateLimitExceeded"}]}}"#;
    assert_eq!(classify(403, body), DavOutcome::Retryable);
}

#[test]
fn non_google_403_is_auth() {
    let body = br#"{"error":{"errors":[{"domain":"global","reason":"forbidden"}]}}"#;
    assert_eq!(classify(403, body), DavOutcome::Auth);
}

#[test]
fn fatal_4xx_other() {
    assert_eq!(classify(400, b""), DavOutcome::Fatal);
    assert_eq!(classify(405, b""), DavOutcome::Fatal);
    assert_eq!(classify(412, b""), DavOutcome::Fatal);
}

#[test]
fn usage_limit_body_on_other_status_keeps_status_rule() {
    let body = br#"{"error":{"errors":[{"domain":"usageLimits"}]}}"#;
    assert_eq!(classify(401, body), DavOutcome::Auth);
    assert_eq!(classify(200, body), DavOutcome::Success);
}

#[test]
fn malformed_json_403_is_auth() {
    assert_eq!(classify(403, b"{not json"), DavOutcome::Auth);
}

#[test]
fn principal_body_matches_expected_shape() {
    let body = propfind_current_user_principal();
    assert!(body.starts_with("<?xml"));
    assert!(body.contains("<d:current-user-principal/>"));
    assert!(body.contains("xmlns:d=\"DAV:\""));
}

#[test]
fn calendar_home_set_includes_caldav_namespace() {
    let body = propfind_calendar_home_set();
    assert!(body.contains("xmlns:c=\"urn:ietf:params:xml:ns:caldav\""));
    assert!(body.contains("<c:calendar-home-set/>"));
}

#[test]
fn addressbook_home_set_includes_carddav_namespace() {
    let body = propfind_addressbook_home_set();
    assert!(body.contains("xmlns:c=\"urn:ietf:params:xml:ns:carddav\""));
    assert!(body.contains("<c:addressbook-home-set/>"));
}

#[test]
fn calendar_multiget_lists_hrefs_in_order() {
    let hrefs = vec![
        Href::from_normalised("/dav/cal/u/d/a.ics".to_owned()),
        Href::from_normalised("/dav/cal/u/d/b.ics".to_owned()),
    ];
    let body = calendar_multiget(&hrefs);
    let a_pos = body.find("/a.ics").unwrap();
    let b_pos = body.find("/b.ics").unwrap();
    assert!(a_pos < b_pos);
    assert!(body.contains("<c:calendar-data/>"));
}

#[test]
fn addressbook_multiget_emits_address_data_element() {
    let hrefs = vec![Href::from_normalised("/dav/card/u/d/a.vcf".to_owned())];
    let body = addressbook_multiget(&hrefs);
    assert!(body.contains("<c:address-data/>"));
    assert!(body.contains("<d:href>/dav/card/u/d/a.vcf</d:href>"));
}

#[test]
fn escape_handles_xml_metacharacters() {
    let h = Href::from_normalised("/dav/cal/u/d/&lt;weird&gt;.ics".to_owned());
    let body = calendar_multiget(&[h]);
    assert!(body.contains("&amp;lt;weird&amp;gt;.ics"));
}

#[test]
fn webdav_listing_requests_filesystem_props() {
    let body = propfind_webdav_listing();
    assert!(body.contains("<d:getcontenttype/>"));
    assert!(body.contains("<d:getlastmodified/>"));
    assert!(body.contains("<d:getcontentlength/>"));
    assert!(body.contains("<d:creationdate/>"));
}
