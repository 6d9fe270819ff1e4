//! WebDAV, CalDAV and CardDAV request bodies.

use vstd::prelude::*;
use crate::dav::href::Href;
use crate::text::xml_escape;

verus! {

pub const NS_DAV: &'static str = "DAV:";

pub const NS_CALDAV: &'static str = "urn:ietf:params:xml:ns:caldav";

pub const NS_CARDDAV: &'static str = "urn:ietf:params:xml:ns:carddav";

pub const NS_APPLE_ICAL: &'static str = "http://apple.com/ns/ical/";

pub fn propfind_current_user_principal() -> (r: String)
    ensures
        r@ == "<?xml version=\"1.0\" encoding=\"utf-8\"?>\n\
         <d:propfind xmlns:d=\"DAV:\">\
         <d:prop><d:current-user-principal/></d:prop>\
         </d:propfind>"@,
{
    "<?xml version=\"1.0\" encoding=\"utf-8\"?>\n\
         <d:propfind xmlns:d=\"DAV:\">\
         <d:prop><d:current-user-principal/></d:prop>\
         </d:propfind>".to_owned()
}

pub fn propfind_calendar_home_set() -> (r: String)
    ensures
        r@ == "<?xml version=\"1.0\" encoding=\"utf-8\"?>\n\
         <d:propfind xmlns:d=\"DAV:\" xmlns:c=\"urn:ietf:params:xml:ns:caldav\">\
         <d:prop><c:calendar-home-set/></d:prop>\
         </d:propfind>"@,
{
    "<?xml version=\"1.0\" encoding=\"utf-8\"?>\n\
         <d:propfind xmlns:d=\"DAV:\" xmlns:c=\"urn:ietf:params:xml:ns:caldav\">\
         <d:prop><c:calendar-home-set/></d:prop>\
         </d:propfind>".to_owned()
}

pub fn propfind_addressbook_home_set() -> (r: String)
    ensures
        r@ == "<?xml version=\"1.0\" encoding=\"utf-8\"?>\n\
         <d:propfind xmlns:d=\"DAV:\" xmlns:c=\"urn:ietf:params:xml:ns:carddav\">\
         <d:prop><c:addressbook-home-set/></d:prop>\
         </d:propfind>"@,
{
    "<?xml version=\"1.0\" encoding=\"utf-8\"?>\n\
         <d:propfind xmlns:d=\"DAV:\" xmlns:c=\"urn:ietf:params:xml:ns:carddav\">\
         <d:prop><c:addressbook-home-set/></d:prop>\
         </d:propfind>".to_owned()
}

pub fn propfind_principal_and_calendar_home_set() -> (r: String)
    ensures
        r@ == "<?xml version=\"1.0\" encoding=\"utf-8\"?>\n\
         <d:propfind xmlns:d=\"DAV:\" xmlns:c=\"urn:ietf:params:xml:ns:caldav\">\
         <d:prop>\
         <d:current-user-principal/>\
         <c:calendar-home-set/>\
         </d:prop>\
         </d:propfind>"@,
{
    "<?xml version=\"1.0\" encoding=\"utf-8\"?>\n\
         <d:propfind xmlns:d=\"DAV:\" xmlns:c=\"urn:ietf:params:xml:ns:caldav\">\
         <d:prop>\
         <d:current-user-principal/>\
         <c:calendar-home-set/>\
         </d:prop>\
         </d:propfind>".to_owned()
}

pub fn propfind_principal_and_addressbook_home_set() -> (r: String)
    ensures
        r@ == "<?xml version=\"1.0\" encoding=\"utf-8\"?>\n\
         <d:propfind xmlns:d=\"DAV:\" xmlns:c=\"urn:ietf:params:xml:ns:carddav\">\
         <d:prop>\
         <d:current-user-principal/>\
         <c:addressbook-home-set/>\
         </d:prop>\
         </d:propfind>"@,
{
    "<?xml version=\"1.0\" encoding=\"utf-8\"?>\n\
         <d:propfind xmlns:d=\"DAV:\" xmlns:c=\"urn:ietf:params:xml:ns:carddav\">\
         <d:prop>\
         <d:current-user-principal/>\
         <c:addressbook-home-set/>\
         </d:prop>\
         </d:propfind>".to_owned()
}

pub fn propfind_calendar_collections() -> (r: String)
    ensures
        r@ == "<?xml version=\"1.0\" encoding=\"utf-8\"?>\n\
         <d:propfind \
           xmlns:d=\"DAV:\" \
           xmlns:c=\"urn:ietf:params:xml:ns:caldav\" \
           xmlns:ic=\"http://apple.com/ns/ical/\">\
         <d:prop>\
         <d:resourcetype/>\
         <d:displayname/>\
         <c:calendar-description/>\
         <c:supported-calendar-component-set/>\
         <c:calendar-timezone/>\
         <ic:calendar-color/>\
         <ic:calendar-order/>\
         </d:prop>\
         </d:propfind>"@,
{
    "<?xml version=\"1.0\" encoding=\"utf-8\"?>\n\
         <d:propfind \
           xmlns:d=\"DAV:\" \
           xmlns:c=\"urn:ietf:params:xml:ns:caldav\" \
           xmlns:ic=\"http://apple.com/ns/ical/\">\
         <d:prop>\
         <d:resourcetype/>\
         <d:displayname/>\
         <c:calendar-description/>\
         <c:supported-calendar-component-set/>\
         <c:calendar-timezone/>\
         <ic:calendar-color/>\
         <ic:calendar-order/>\
         </d:prop>\
         </d:propfind>".to_owned()
}

pub fn propfind_addressbook_collections() -> (r: String)
    ensures
        r@ == "<?xml version=\"1.0\" encoding=\"utf-8\"?>\n\
         <d:propfind \
           xmlns:d=\"DAV:\" \
           xmlns:c=\"urn:ietf:params:xml:ns:carddav\">\
         <d:prop>\
         <d:resourcetype/>\
         <d:displayname/>\
         <c:addressbook-description/>\
         </d:prop>\
         </d:propfind>"@,
{
    "<?xml version=\"1.0\" encoding=\"utf-8\"?>\n\
         <d:propfind \
           xmlns:d=\"DAV:\" \
           xmlns:c=\"urn:ietf:params:xml:ns:carddav\">\
         <d:prop>\
         <d:resourcetype/>\
         <d:displayname/>\
         <c:addressbook-description/>\
         </d:prop>\
         </d:propfind>".to_owned()
}

pub fn propfind_webdav_listing() -> (r: String)
    ensures
        r@ == "<?xml version=\"1.0\" encoding=\"utf-8\"?>\n\
         <d:propfind xmlns:d=\"DAV:\">\
         <d:prop>\
         <d:resourcetype/>\
         <d:displayname/>\
         <d:getetag/>\
         <d:getcontenttype/>\
         <d:getlastmodified/>\
         <d:getcontentlength/>\
         <d:creationdate/>\
         </d:prop>\
         </d:propfind>"@,
{
    "<?xml version=\"1.0\" encoding=\"utf-8\"?>\n\
         <d:propfind xmlns:d=\"DAV:\">\
         <d:prop>\
         <d:resourcetype/>\
         <d:displayname/>\
         <d:getetag/>\
         <d:getcontenttype/>\
         <d:getlastmodified/>\
         <d:getcontentlength/>\
         <d:creationdate/>\
         </d:prop>\
         </d:propfind>".to_owned()
}

pub fn propfind_dav_items() -> (r: String)
    ensures
        r@ == "<?xml version=\"1.0\" encoding=\"utf-8\"?>\n\
         <d:propfind xmlns:d=\"DAV:\">\
         <d:prop>\
         <d:resourcetype/>\
         <d:getetag/>\
         <d:getcontenttype/>\
         <d:getlastmodified/>\
         </d:prop>\
         </d:propfind>"@,
{
    "<?xml version=\"1.0\" encoding=\"utf-8\"?>\n\
         <d:propfind xmlns:d=\"DAV:\">\
         <d:prop>\
         <d:resourcetype/>\
         <d:getetag/>\
         <d:getcontenttype/>\
         <d:getlastmodified/>\
         </d:prop>\
         </d:propfind>".to_owned()
}

/// `href` elements for the first `n` hrefs, escaped.
pub open spec fn href_elements(hrefs: Seq<Href>, n: int) -> Seq<char>
    decreases n,
{
    if n <= 0 {
        Seq::empty()
    } else {
        href_elements(hrefs, n - 1) + "<d:href>"@ + xml_escape(hrefs[n - 1]@) + "</d:href>"@
    }
}

fn write_hrefs(out: &mut String, hrefs: &[Href])
    ensures
        final(out)@ == old(out)@ + href_elements(hrefs@, hrefs@.len() as int),
{
    let ghost start = out@;
    let mut i: usize = 0;
    while i < hrefs.len()
        invariant
            i <= hrefs@.len(),
            out@ == start + href_elements(hrefs@, i as int),
        decreases hrefs.len() - i,
    {
        write_href_element(out, &hrefs[i]);
        i += 1;
    }
}

/// A CalDAV multiget of the given hrefs, in order.
pub fn calendar_multiget(hrefs: &[Href]) -> (r: String)
    ensures
        r@ == "<?xml version=\"1.0\" encoding=\"utf-8\"?>\n\
         <c:calendar-multiget \
           xmlns:d=\"DAV:\" \
           xmlns:c=\"urn:ietf:params:xml:ns:caldav\">\
         <d:prop>\
         <d:getetag/>\
         <c:calendar-data/>\
         </d:prop>"@ + href_elements(hrefs@, hrefs@.len() as int) + "</c:calendar-multiget>"@,
{
    let mut out = String::new();
    out.append(
        "<?xml version=\"1.0\" encoding=\"utf-8\"?>\n\
         <c:calendar-multiget \
           xmlns:d=\"DAV:\" \
           xmlns:c=\"urn:ietf:params:xml:ns:caldav\">\
         <d:prop>\
         <d:getetag/>\
         <c:calendar-data/>\
         </d:prop>",
    );
    write_hrefs(&mut out, hrefs);
    out.append("</c:calendar-multiget>");
    out
}

/// A CardDAV multiget of the given hrefs, in order.
pub fn addressbook_multiget(hrefs: &[Href]) -> (r: String)
    ensures
        r@ == "<?xml version=\"1.0\" encoding=\"utf-8\"?>\n\
         <c:addressbook-multiget \
           xmlns:d=\"DAV:\" \
           xmlns:c=\"urn:ietf:params:xml:ns:carddav\">\
         <d:prop>\
         <d:getetag/>\
         <c:address-data/>\
         </d:prop>"@ + href_elements(hrefs@, hrefs@.len() as int) + "</c:addressbook-multiget>"@,
{
    let mut out = String::new();
    out.append(
        "<?xml version=\"1.0\" encoding=\"utf-8\"?>\n\
         <c:addressbook-multiget \
           xmlns:d=\"DAV:\" \
           xmlns:c=\"urn:ietf:params:xml:ns:carddav\">\
         <d:prop>\
         <d:getetag/>\
         <c:address-data/>\
         </d:prop>",
    );
    write_hrefs(&mut out, hrefs);
    out.append("</c:addressbook-multiget>");
    out
}

fn write_href_element(out: &mut String, h: &Href)
    ensures
        final(out)@ == old(out)@ + "<d:href>"@ + xml_escape(h@) + "</d:href>"@,
{
    out.append("<d:href>");
    write_escaped(out, h.as_str());
    out.append("</d:href>");
}

fn write_escaped(out: &mut String, s: &str)
    ensures
        final(out)@ == old(out)@ + xml_escape(s@),
{
    crate::text::append_xml_escaped(out, s);
}

} // verus!
