use vandelay::dav::parse::{
    parse_multistatus, strip_ascii_control_chars, compact_controls, is_xml_illegal_control, DavParseError, DavResponse,
};

fn parse(body: &str) -> Vec<DavResponse> {
    parse_multistatus(body.as_bytes(), "https://x/").expect("parse")
}

    #[test]
    fn parses_simple_principal_response() {
        let body = r#"<?xml version="1.0"?>
        <d:multistatus xmlns:d="DAV:">
          <d:response>
            <d:href>/dav/</d:href>
            <d:propstat>
              <d:prop>
                <d:current-user-principal>
                  <d:href>/dav/principals/alice/</d:href>
                </d:current-user-principal>
              </d:prop>
              <d:status>HTTP/1.1 200 OK</d:status>
            </d:propstat>
          </d:response>
        </d:multistatus>"#;
        let r = parse(body);
        assert_eq!(r.len(), 1);
        assert_eq!(
            r[0].props.current_user_principal.as_deref(),
            Some("/dav/principals/alice/")
        );
    }

    #[test]
    fn parses_calendar_collection_with_apple_color_and_order() {
        let body = r#"<?xml version="1.0"?>
        <multistatus xmlns="DAV:" xmlns:c="urn:ietf:params:xml:ns:caldav" xmlns:ic="http://apple.com/ns/ical/">
          <response>
            <href>/dav/cal/u/default/</href>
            <propstat>
              <prop>
                <resourcetype><collection/><c:calendar/></resourcetype>
                <displayname>Default</displayname>
                <ic:calendar-color>#3366cc</ic:calendar-color>
                <ic:calendar-order>5</ic:calendar-order>
                <c:calendar-description>Work</c:calendar-description>
              </prop>
              <status>HTTP/1.1 200 OK</status>
            </propstat>
          </response>
        </multistatus>"#;
        let r = parse(body);
        assert_eq!(r.len(), 1);
        assert!(r[0].props.is_collection);
        assert!(r[0].props.is_calendar);
        assert_eq!(r[0].props.displayname.as_deref(), Some("Default"));
        assert_eq!(r[0].props.calendar_color.as_deref(), Some("#3366cc"));
        assert_eq!(r[0].props.calendar_order, Some(5));
        assert_eq!(r[0].props.calendar_description.as_deref(), Some("Work"));
    }

    #[test]
    fn parses_item_etag_and_content_type() {
        let body = r#"<?xml version="1.0"?>
        <d:multistatus xmlns:d="DAV:">
          <d:response>
            <d:href>/dav/cal/u/d/event1.ics</d:href>
            <d:propstat>
              <d:prop>
                <d:resourcetype/>
                <d:getetag>"abc123"</d:getetag>
                <d:getcontenttype>text/calendar; charset=utf-8</d:getcontenttype>
              </d:prop>
              <d:status>HTTP/1.1 200 OK</d:status>
            </d:propstat>
          </d:response>
        </d:multistatus>"#;
        let r = parse(body);
        assert_eq!(r[0].props.etag.as_deref(), Some("\"abc123\""));
        assert!(!r[0].props.is_collection);
        assert!(
            r[0].props
                .content_type
                .as_deref()
                .unwrap()
                .starts_with("text/calendar")
        );
    }

    #[test]
    fn parses_calendar_multiget_response_with_data() {
        let body = r#"<?xml version="1.0"?>
        <d:multistatus xmlns:d="DAV:" xmlns:c="urn:ietf:params:xml:ns:caldav">
          <d:response>
            <d:href>/dav/cal/u/d/event1.ics</d:href>
            <d:propstat>
              <d:prop>
                <d:getetag>"v2"</d:getetag>
                <c:calendar-data>BEGIN:VCALENDAR
END:VCALENDAR</c:calendar-data>
              </d:prop>
              <d:status>HTTP/1.1 200 OK</d:status>
            </d:propstat>
          </d:response>
        </d:multistatus>"#;
        let r = parse(body);
        assert_eq!(r[0].props.etag.as_deref(), Some("\"v2\""));
        let data = r[0].props.calendar_data.as_deref().unwrap();
        assert!(data.contains("VCALENDAR"));
    }

    #[test]
    fn drops_duplicate_response_hrefs() {
        let body = r#"<?xml version="1.0"?>
        <d:multistatus xmlns:d="DAV:">
          <d:response>
            <d:href>/dav/cal/u/d/event.ics</d:href>
            <d:propstat>
              <d:prop><d:getetag>"a"</d:getetag></d:prop>
              <d:status>HTTP/1.1 200 OK</d:status>
            </d:propstat>
          </d:response>
          <d:response>
            <d:href>/dav/cal/u/d/event.ics</d:href>
            <d:propstat>
              <d:prop><d:getetag>"a"</d:getetag></d:prop>
              <d:status>HTTP/1.1 200 OK</d:status>
            </d:propstat>
          </d:response>
        </d:multistatus>"#;
        let r = parse(body);
        assert_eq!(r.len(), 1);
    }

    #[test]
    fn captures_response_level_status_for_vanished_items() {
        let body = r#"<?xml version="1.0"?>
        <d:multistatus xmlns:d="DAV:">
          <d:response>
            <d:href>/dav/cal/u/d/gone.ics</d:href>
            <d:status>HTTP/1.1 404 Not Found</d:status>
          </d:response>
        </d:multistatus>"#;
        let r = parse(body);
        assert_eq!(r[0].status, Some(404));
    }

    #[test]
    fn collects_propstat_errors_separately() {
        let body = r#"<?xml version="1.0"?>
        <d:multistatus xmlns:d="DAV:">
          <d:response>
            <d:href>/dav/cal/u/d/event.ics</d:href>
            <d:propstat>
              <d:prop><d:getetag>"a"</d:getetag></d:prop>
              <d:status>HTTP/1.1 200 OK</d:status>
            </d:propstat>
            <d:propstat>
              <d:prop><d:custom-prop/></d:prop>
              <d:status>HTTP/1.1 404 Not Found</d:status>
            </d:propstat>
          </d:response>
        </d:multistatus>"#;
        let r = parse(body);
        assert_eq!(r[0].propstat_errors, vec![404]);
        assert_eq!(r[0].props.etag.as_deref(), Some("\"a\""));
    }

    #[test]
    fn unknown_namespace_elements_ignored() {
        let body = r#"<?xml version="1.0"?>
        <d:multistatus xmlns:d="DAV:" xmlns:cs="http://calendarserver.org/ns/">
          <d:response>
            <d:href>/dav/cal/u/d/</d:href>
            <d:propstat>
              <d:prop>
                <d:resourcetype><d:collection/></d:resourcetype>
                <cs:getctag>abc</cs:getctag>
              </d:prop>
              <d:status>HTTP/1.1 200 OK</d:status>
            </d:propstat>
          </d:response>
        </d:multistatus>"#;
        let r = parse(body);
        assert!(r[0].props.is_collection);
    }

    #[test]
    fn strip_control_chars_removes_low_bytes() {
        let raw = b"<?xml version=\"1.0\"?>\x01<root/>";
        let cleaned = strip_ascii_control_chars(raw);
        assert!(!cleaned.contains(&0x01));
    }

    #[test]
    fn strip_control_chars_leaves_tab_newline_cr() {
        let raw = b"<?xml ?>\t\n\r";
        let cleaned = strip_ascii_control_chars(raw);
        match cleaned {
            std::borrow::Cow::Borrowed(_) => {}
            std::borrow::Cow::Owned(_) => panic!("should not have allocated"),
        }
    }

    #[test]
    fn parses_addressbook_collection() {
        let body = r#"<?xml version="1.0"?>
        <multistatus xmlns="DAV:" xmlns:c="urn:ietf:params:xml:ns:carddav">
          <response>
            <href>/dav/card/u/default/</href>
            <propstat>
              <prop>
                <resourcetype><collection/><c:addressbook/></resourcetype>
                <displayname>Contacts</displayname>
                <c:addressbook-description>Personal</c:addressbook-description>
              </prop>
              <status>HTTP/1.1 200 OK</status>
            </propstat>
          </response>
        </multistatus>"#;
        let r = parse(body);
        assert!(r[0].props.is_addressbook);
        assert_eq!(r[0].props.displayname.as_deref(), Some("Contacts"));
        assert_eq!(
            r[0].props.addressbook_description.as_deref(),
            Some("Personal")
        );
    }

    #[test]
    fn empty_multistatus_yields_no_responses() {
        let body = r#"<?xml version="1.0"?>
        <d:multistatus xmlns:d="DAV:"/>"#;
        let r = parse(body);
        assert!(r.is_empty());
    }

    #[test]
    fn supported_calendar_component_set_captures_empty_element_name_attr() {
        let body = r#"<?xml version="1.0"?>
        <d:multistatus xmlns:d="DAV:" xmlns:c="urn:ietf:params:xml:ns:caldav">
          <d:response>
            <d:href>/dav/cal/u/d/</d:href>
            <d:propstat>
              <d:prop>
                <d:resourcetype><d:collection/><c:calendar/></d:resourcetype>
                <c:supported-calendar-component-set>
                  <c:comp name="VEVENT"/>
                  <c:comp name="VTODO"/>
                </c:supported-calendar-component-set>
              </d:prop>
              <d:status>HTTP/1.1 200 OK</d:status>
            </d:propstat>
          </d:response>
        </d:multistatus>"#;
        let r = parse(body);
        assert_eq!(r[0].props.supported_components, vec!["VEVENT", "VTODO"]);
    }

    #[test]
    fn merge_props_last_propstat_wins_for_duplicate_keys() {
        let body = r#"<?xml version="1.0"?>
        <d:multistatus xmlns:d="DAV:">
          <d:response>
            <d:href>/dav/cal/u/d/</d:href>
            <d:propstat>
              <d:prop><d:displayname>First</d:displayname></d:prop>
              <d:status>HTTP/1.1 200 OK</d:status>
            </d:propstat>
            <d:propstat>
              <d:prop><d:displayname>Second</d:displayname></d:prop>
              <d:status>HTTP/1.1 200 OK</d:status>
            </d:propstat>
          </d:response>
        </d:multistatus>"#;
        let r = parse(body);
        assert_eq!(r[0].props.displayname.as_deref(), Some("Second"));
    }

    #[test]
    fn content_length_parses_to_u64() {
        let body = r#"<?xml version="1.0"?>
        <d:multistatus xmlns:d="DAV:">
          <d:response>
            <d:href>/file.bin</d:href>
            <d:propstat>
              <d:prop>
                <d:getcontentlength>123456</d:getcontentlength>
                <d:resourcetype/>
              </d:prop>
              <d:status>HTTP/1.1 200 OK</d:status>
            </d:propstat>
          </d:response>
        </d:multistatus>"#;
        let r = parse(body);
        assert_eq!(r[0].props.content_length, Some(123456));
    }

#[test]
fn href_is_resolved_against_base_and_canonicalised() {
    let body = r#"<?xml version="1.0"?>
    <d:multistatus xmlns:d="DAV:">
      <d:response>
        <d:href> relative/caf%c3%a9.ics </d:href>
        <d:status>HTTP/1.1 200 OK</d:status>
      </d:response>
    </d:multistatus>"#;
    let r = parse_multistatus(body.as_bytes(), "https://x/dav/cal/").unwrap();
    assert_eq!(r[0].href.as_str(), "/dav/cal/relative/caf%C3%A9.ics");
    assert_eq!(r[0].status, Some(200));
}

#[test]
fn response_without_href_is_an_error() {
    let body = r#"<d:multistatus xmlns:d="DAV:"><d:response><d:status>HTTP/1.1 200 OK</d:status></d:response></d:multistatus>"#;
    assert!(matches!(parse_multistatus(body.as_bytes(), "https://x/"), Err(DavParseError::MissingHref)));
}

#[test]
fn invalid_base_url_is_an_href_error() {
    let body = r#"<d:multistatus xmlns:d="DAV:"><d:response><d:href>/a</d:href></d:response></d:multistatus>"#;
    assert!(matches!(parse_multistatus(body.as_bytes(), "not a url"), Err(DavParseError::Href { .. })));
}

#[test]
fn truncated_response_is_an_xml_error() {
    let body = r#"<d:multistatus xmlns:d="DAV:"><d:response><d:href>/a</d:href>"#;
    assert!(matches!(parse_multistatus(body.as_bytes(), "https://x/"), Err(DavParseError::Xml(_))));
}

#[test]
fn elements_outside_the_dav_namespace_are_not_responses() {
    let body = r#"<m xmlns:o="urn:other"><o:response><o:href>/a</o:href></o:response></m>"#;
    assert!(parse_multistatus(body.as_bytes(), "https://x/").unwrap().is_empty());
}

#[test]
fn calendar_order_reads_negative_numbers_and_rejects_junk() {
    let body = r#"<multistatus xmlns="DAV:" xmlns:ic="http://apple.com/ns/ical/"><response><href>/a/</href>
      <propstat><prop><ic:calendar-order>-3</ic:calendar-order></prop><status>HTTP/1.1 200 OK</status></propstat></response>
      <response><href>/b/</href>
      <propstat><prop><ic:calendar-order>x</ic:calendar-order></prop><status>HTTP/1.1 200 OK</status></propstat></response></multistatus>"#;
    let r = parse(body);
    assert_eq!(r[0].props.calendar_order, Some(-3));
    assert_eq!(r[1].props.calendar_order, None);
}

#[test]
fn empty_etag_is_not_recorded() {
    let body = r#"<multistatus xmlns="DAV:"><response><href>/a</href>
      <propstat><prop><getetag>   </getetag></prop><status>HTTP/1.1 200 OK</status></propstat></response></multistatus>"#;
    assert_eq!(parse(body)[0].props.etag, None);
}

#[test]
fn illegal_control_table() {
    for b in 0u8..=0x1f {
        let expected = !(b == 0x09 || b == 0x0a || b == 0x0d);
        assert_eq!(is_xml_illegal_control(b), expected, "{b:#x}");
    }
    assert!(!is_xml_illegal_control(b' '));
    assert!(!is_xml_illegal_control(0x7f));
}

#[test]
fn compact_controls_keeps_order_of_allowed_bytes() {
    let mut buf = *b"a\x01b\x02\tc\x1fzz";
    let w = compact_controls(&mut buf, 7);
    assert_eq!(&buf[..w], b"ab\tc");
}
