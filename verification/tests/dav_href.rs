use vandelay::dav::href::{normalise, normalise_path};

#[test]
fn relative_href_resolves_against_base() {
    let h = normalise("https://dav.example.com/", "/dav/cal/user/default/").unwrap();
    assert_eq!(h.as_str(), "/dav/cal/user/default/");
}

#[test]
fn absolute_href_strips_scheme_and_host() {
    let h = normalise(
        "https://dav.example.com/cal/",
        "https://dav.example.com/dav/cal/user/default/event-1.ics",
    )
    .unwrap();
    assert_eq!(h.as_str(), "/dav/cal/user/default/event-1.ics");
}

#[test]
fn percent_encoding_canonicalised_to_uppercase_hex() {
    let h = normalise("https://x/", "/dav/cal/user%2bwork/event%201.ics").unwrap();
    assert_eq!(h.as_str(), "/dav/cal/user%2Bwork/event%201.ics");
}

#[test]
fn at_sign_is_preserved_in_collection_paths() {
    let h = normalise("https://x/", "/dav/cal/user@host/default/").unwrap();
    assert_eq!(h.as_str(), "/dav/cal/user@host/default/");
}

#[test]
fn trailing_slash_preserved() {
    let coll = normalise("https://x/", "/a/b/").unwrap();
    let item = normalise("https://x/", "/a/b").unwrap();
    assert_eq!(coll.as_str(), "/a/b/");
    assert_eq!(item.as_str(), "/a/b");
    assert_ne!(coll, item);
}

#[test]
fn href_equality_is_byte_exact_after_normalisation() {
    let a = normalise("https://x/", "/Dav/Cal/User/Default/").unwrap();
    let b = normalise("https://x/", "/Dav/Cal/User/Default/").unwrap();
    assert_eq!(a, b);
}

#[test]
fn empty_path_treated_as_root() {
    let url = url::Url::parse("https://dav.example.com").unwrap();
    let h = normalise_path(&url);
    assert_eq!(h.as_str(), "/");
}

#[test]
fn query_and_fragment_stripped() {
    let h = normalise("https://x/", "/dav/cal/?q=1#frag").unwrap();
    assert_eq!(h.as_str(), "/dav/cal/");
}

#[test]
fn unicode_path_round_trips_through_utf8_percent_encoding() {
    let h = normalise("https://x/", "/dav/cal/caf%C3%A9/").unwrap();
    assert_eq!(h.as_str(), "/dav/cal/caf%C3%A9/");
}
