//! Reading WebDAV `multistatus` replies (RFC 4918, CalDAV and CardDAV).
//!
//! The document is read into the steps of an XML pull parser; the functions
//! here walk those steps as the reply's structure prescribes. Each function
//! has a specification over the steps, and its contract says that it computes
//! exactly that.

use vstd::prelude::*;
use crate::dav::href::{normalise, normalised, Href, HrefError, HrefErrorV};
use crate::dav::xml::{NS_APPLE_ICAL, NS_CALDAV, NS_CARDDAV, NS_DAV};
use crate::exchange_ews::types::{trim_chars, trimmed};
use crate::text::{ascii_words, eq_ignore_case, lower_seq, parse_i64, parse_unsigned, signed_value, str_eq, str_eq_ignore_case, unsigned_value};
use crate::xml_stream::{
    attribute_value, find_attribute, is_terminal, local_name, local_name_of, opt_string_view,
    steps_view, wellformed_attributes, well_ended, xml_attribute_list, document_steps, xml_steps,
    XmlStep, XmlStepV,
};

verus! {

#[derive(Debug)]
pub enum DavParseError {
    /// The XML is malformed or ends too early.
    Xml(String),
    /// A response names an href that does not resolve against the base URL.
    Href { href: String, source: HrefError },
    /// A response carries no href.
    MissingHref,
}

/// A `DavParseError` with its message, or its href and why it did not
/// resolve.
pub enum DavParseErrorV {
    Xml(Seq<char>),
    Href(Seq<char>, HrefErrorV),
    MissingHref,
}

impl View for DavParseError {
    type V = DavParseErrorV;

    open spec fn view(&self) -> DavParseErrorV {
        match self {
            DavParseError::Xml(m) => DavParseErrorV::Xml(m@),
            DavParseError::Href { href, source } => DavParseErrorV::Href(href@, source@),
            DavParseError::MissingHref => DavParseErrorV::MissingHref,
        }
    }
}

/// The properties reported for a resource.
#[derive(Debug, Clone)]
pub struct ResourceProps {
    pub is_collection: bool,
    pub is_calendar: bool,
    pub is_addressbook: bool,
    pub displayname: Option<String>,
    pub current_user_principal: Option<String>,
    pub calendar_home_set: Option<String>,
    pub addressbook_home_set: Option<String>,
    pub etag: Option<String>,
    pub content_type: Option<String>,
    pub last_modified: Option<String>,
    pub creation_date: Option<String>,
    pub content_length: Option<u64>,
    pub calendar_description: Option<String>,
    pub addressbook_description: Option<String>,
    pub calendar_color: Option<String>,
    pub calendar_order: Option<i64>,
    pub calendar_timezone: Option<String>,
    pub supported_components: Vec<String>,
    pub calendar_data: Option<String>,
    pub address_data: Option<String>,
}

pub struct PropsV {
    pub is_collection: bool,
    pub is_calendar: bool,
    pub is_addressbook: bool,
    pub displayname: Option<Seq<char>>,
    pub current_user_principal: Option<Seq<char>>,
    pub calendar_home_set: Option<Seq<char>>,
    pub addressbook_home_set: Option<Seq<char>>,
    pub etag: Option<Seq<char>>,
    pub content_type: Option<Seq<char>>,
    pub last_modified: Option<Seq<char>>,
    pub creation_date: Option<Seq<char>>,
    pub content_length: Option<u64>,
    pub calendar_description: Option<Seq<char>>,
    pub addressbook_description: Option<Seq<char>>,
    pub calendar_color: Option<Seq<char>>,
    pub calendar_order: Option<i64>,
    pub calendar_timezone: Option<Seq<char>>,
    pub supported_components: Seq<Seq<char>>,
    pub calendar_data: Option<Seq<char>>,
    pub address_data: Option<Seq<char>>,
}

pub open spec fn strings_view(v: Seq<String>) -> Seq<Seq<char>> {
    v.map_values(|s: String| s@)
}

impl View for ResourceProps {
    type V = PropsV;

    open spec fn view(&self) -> PropsV {
        PropsV {
            is_collection: self.is_collection,
            is_calendar: self.is_calendar,
            is_addressbook: self.is_addressbook,
            displayname: opt_string_view(self.displayname),
            current_user_principal: opt_string_view(self.current_user_principal),
            calendar_home_set: opt_string_view(self.calendar_home_set),
            addressbook_home_set: opt_string_view(self.addressbook_home_set),
            etag: opt_string_view(self.etag),
            content_type: opt_string_view(self.content_type),
            last_modified: opt_string_view(self.last_modified),
            creation_date: opt_string_view(self.creation_date),
            content_length: self.content_length,
            calendar_description: opt_string_view(self.calendar_description),
            addressbook_description: opt_string_view(self.addressbook_description),
            calendar_color: opt_string_view(self.calendar_color),
            calendar_order: self.calendar_order,
            calendar_timezone: opt_string_view(self.calendar_timezone),
            supported_components: strings_view(self.supported_components@),
            calendar_data: opt_string_view(self.calendar_data),
            address_data: opt_string_view(self.address_data),
        }
    }
}

/// No property reported.
pub open spec fn no_props() -> PropsV {
    PropsV {
        is_collection: false,
        is_calendar: false,
        is_addressbook: false,
        displayname: None,
        current_user_principal: None,
        calendar_home_set: None,
        addressbook_home_set: None,
        etag: None,
        content_type: None,
        last_modified: None,
        creation_date: None,
        content_length: None,
        calendar_description: None,
        addressbook_description: None,
        calendar_color: None,
        calendar_order: None,
        calendar_timezone: None,
        supported_components: Seq::empty(),
        calendar_data: None,
        address_data: None,
    }
}

impl Default for ResourceProps {
    fn default() -> (r: ResourceProps)
        ensures
            r@ == no_props(),
    {
        let r = ResourceProps {
            is_collection: false,
            is_calendar: false,
            is_addressbook: false,
            displayname: None,
            current_user_principal: None,
            calendar_home_set: None,
            addressbook_home_set: None,
            etag: None,
            content_type: None,
            last_modified: None,
            creation_date: None,
            content_length: None,
            calendar_description: None,
            addressbook_description: None,
            calendar_color: None,
            calendar_order: None,
            calendar_timezone: None,
            supported_components: Vec::new(),
            calendar_data: None,
            address_data: None,
        };
        assert(strings_view(r.supported_components@) =~= Seq::<Seq<char>>::empty());
        r
    }
}

/// One `response` of a `multistatus` reply.
#[derive(Debug, Clone)]
pub struct DavResponse {
    pub href: Href,
    pub status: Option<u16>,
    pub props: ResourceProps,
    pub propstat_errors: Vec<u16>,
}

pub struct DavResponseV {
    pub href: Seq<char>,
    pub status: Option<u16>,
    pub props: PropsV,
    pub propstat_errors: Seq<u16>,
}

impl View for DavResponse {
    type V = DavResponseV;

    open spec fn view(&self) -> DavResponseV {
        DavResponseV { href: self.href@, status: self.status, props: self.props@, propstat_errors: self.propstat_errors@ }
    }
}

// ---------------------------------------------------------------------------
// Bytes that XML 1.0 forbids

/// The C0 control characters that XML 1.0 forbids (all but tab, line feed and
/// carriage return).
pub open spec fn illegal_control(b: u8) -> bool {
    b <= 0x08 || b == 0x0b || b == 0x0c || (0x0e <= b && b <= 0x1f)
}

/// The bytes with the forbidden control characters left out.
pub open spec fn without_controls(b: Seq<u8>) -> Seq<u8>
    decreases b.len(),
{
    if b.len() == 0 {
        b
    } else if illegal_control(b.last()) {
        without_controls(b.drop_last())
    } else {
        without_controls(b.drop_last()).push(b.last())
    }
}

pub fn is_xml_illegal_control(b: u8) -> (r: bool)
    ensures
        r == illegal_control(b),
{
    b <= 0x08 || b == 0x0b || b == 0x0c || (0x0e <= b && b <= 0x1f)
}

/// The body without the control characters XML 1.0 forbids; borrowed unchanged
/// when it holds none.
pub fn strip_ascii_control_chars(body: &[u8]) -> (r: std::borrow::Cow<'_, [u8]>)
    ensures
        r@ == without_controls(body@),
        (forall|i: int| 0 <= i < body@.len() ==> !illegal_control(#[trigger] body@[i])) <==> r is Borrowed,
{
    let mut i: usize = 0;
    while i < body.len()
        invariant
            i <= body@.len(),
            forall|k: int| 0 <= k < i ==> !illegal_control(#[trigger] body@[k]),
        decreases body.len() - i,
    {
        if is_xml_illegal_control(body[i]) {
            let mut cleaned: Vec<u8> = Vec::new();
            let mut k: usize = 0;
            while k < body.len()
                invariant
                    k <= body@.len(),
                    cleaned@ == without_controls(body@.take(k as int)),
                decreases body.len() - k,
            {
                let b = body[k];
                proof {
                    assert(body@.take(k + 1).drop_last() =~= body@.take(k as int));
                    assert(body@.take(k + 1).last() == b);
                }
                if !is_xml_illegal_control(b) {
                    cleaned.push(b);
                }
                k = k + 1;
            }
            assert(body@.take(k as int) =~= body@);
            return std::borrow::Cow::Owned(cleaned);
        }
        i = i + 1;
    }
    proof {
        lemma_filter_keeps_all(body@);
    }
    std::borrow::Cow::Borrowed(body)
}

proof fn lemma_filter_keeps_all(b: Seq<u8>)
    requires
        forall|k: int| 0 <= k < b.len() ==> !illegal_control(#[trigger] b[k]),
    ensures
        without_controls(b) == b,
    decreases b.len(),
{
    if b.len() > 0 {
        lemma_filter_keeps_all(b.drop_last());
        assert(b.drop_last().push(b.last()) =~= b);
    }
}

/// Moves the allowed bytes of `buf[..n]` to its front, in order, and returns
/// how many there are.
pub fn compact_controls(buf: &mut [u8], n: usize) -> (w: usize)
    requires
        n <= old(buf)@.len(),
    ensures
        final(buf)@.len() == old(buf)@.len(),
        w <= n,
        final(buf)@.take(w as int) == without_controls(old(buf)@.take(n as int)),
{
    let ghost orig = buf@;
    let mut write: usize = 0;
    let mut read: usize = 0;
    while read < n
        invariant
            n <= orig.len(),
            buf@.len() == orig.len(),
            write <= read <= n,
            buf@.take(write as int) == without_controls(orig.take(read as int)),
            forall|k: int| read <= k < orig.len() ==> buf@[k] == orig[k],
        decreases n - read,
    {
        let b = buf[read];
        proof {
            assert(orig.take(read + 1).drop_last() =~= orig.take(read as int));
            assert(orig.take(read + 1).last() == b);
        }
        if !is_xml_illegal_control(b) {
            let ghost before = buf@;
            buf[write] = b;
            proof {
                assert(buf@.take(write + 1) =~= before.take(write as int).push(b));
            }
            write = write + 1;
        }
        read = read + 1;
    }
    write
}

/// Wraps a reader whose bytes will have the forbidden control characters
/// removed (see `compact_controls`).
pub struct ControlStrippingReader<R> {
    pub inner: R,
}

impl<R> ControlStrippingReader<R> {
    pub fn new(inner: R) -> (r: Self)
        ensures
            r.inner == inner,
    {
        ControlStrippingReader { inner }
    }
}

// ---------------------------------------------------------------------------
// Merging the properties of successful `propstat` blocks

pub open spec fn or_else<T>(later: Option<T>, earlier: Option<T>) -> Option<T> {
    if later is Some { later } else { earlier }
}

/// The properties of `t` updated with those reported in `s`: flags are
/// joined, reported values replace earlier ones.
pub open spec fn merged(t: PropsV, s: PropsV) -> PropsV {
    PropsV {
        is_collection: t.is_collection || s.is_collection,
        is_calendar: t.is_calendar || s.is_calendar,
        is_addressbook: t.is_addressbook || s.is_addressbook,
        displayname: or_else(s.displayname, t.displayname),
        current_user_principal: or_else(s.current_user_principal, t.current_user_principal),
        calendar_home_set: or_else(s.calendar_home_set, t.calendar_home_set),
        addressbook_home_set: or_else(s.addressbook_home_set, t.addressbook_home_set),
        etag: or_else(s.etag, t.etag),
        content_type: or_else(s.content_type, t.content_type),
        last_modified: or_else(s.last_modified, t.last_modified),
        creation_date: or_else(s.creation_date, t.creation_date),
        content_length: or_else(s.content_length, t.content_length),
        calendar_description: or_else(s.calendar_description, t.calendar_description),
        addressbook_description: or_else(s.addressbook_description, t.addressbook_description),
        calendar_color: or_else(s.calendar_color, t.calendar_color),
        calendar_order: or_else(s.calendar_order, t.calendar_order),
        calendar_timezone: or_else(s.calendar_timezone, t.calendar_timezone),
        supported_components: if s.supported_components.len() > 0 { s.supported_components } else { t.supported_components },
        calendar_data: or_else(s.calendar_data, t.calendar_data),
        address_data: or_else(s.address_data, t.address_data),
    }
}

fn pick<T>(later: Option<T>, earlier: Option<T>) -> (r: Option<T>)
    ensures
        r == or_else(later, earlier),
{
    if later.is_some() { later } else { earlier }
}

/// The properties of `target` updated with those of a later successful block.
fn merge_props(target: ResourceProps, src: ResourceProps) -> (r: ResourceProps)
    ensures
        r@ == merged(target@, src@),
{
    let comps = if src.supported_components.len() > 0 { src.supported_components } else { target.supported_components };
    ResourceProps {
        is_collection: target.is_collection || src.is_collection,
        is_calendar: target.is_calendar || src.is_calendar,
        is_addressbook: target.is_addressbook || src.is_addressbook,
        displayname: pick(src.displayname, target.displayname),
        current_user_principal: pick(src.current_user_principal, target.current_user_principal),
        calendar_home_set: pick(src.calendar_home_set, target.calendar_home_set),
        addressbook_home_set: pick(src.addressbook_home_set, target.addressbook_home_set),
        etag: pick(src.etag, target.etag),
        content_type: pick(src.content_type, target.content_type),
        last_modified: pick(src.last_modified, target.last_modified),
        creation_date: pick(src.creation_date, target.creation_date),
        content_length: pick(src.content_length, target.content_length),
        calendar_description: pick(src.calendar_description, target.calendar_description),
        addressbook_description: pick(src.addressbook_description, target.addressbook_description),
        calendar_color: pick(src.calendar_color, target.calendar_color),
        calendar_order: pick(src.calendar_order, target.calendar_order),
        calendar_timezone: pick(src.calendar_timezone, target.calendar_timezone),
        supported_components: comps,
        calendar_data: pick(src.calendar_data, target.calendar_data),
        address_data: pick(src.address_data, target.address_data),
    }
}

// ---------------------------------------------------------------------------
// Status lines

/// The code of an HTTP status line such as `HTTP/1.1 207 Multi-Status`: its
/// second word read as a 16-bit number.
pub open spec fn http_status_code(text: Seq<char>) -> Option<u16> {
    let w = ascii_words(text);
    if w.len() >= 2 {
        match unsigned_value(w[1], 0xffff) {
            Some(v) => Some(v as u16),
            None => None,
        }
    } else {
        None
    }
}

/// The code of an HTTP status line.
pub fn parse_http_status(text: &str) -> (r: Option<u16>)
    ensures
        r == http_status_code(text@),
{
    let words = crate::text::ascii_words_of(text);
    if words.len() < 2 {
        return None;
    }
    match parse_unsigned(words[1].as_str(), 0xffff) {
        Some(v) => Some(v as u16),
        None => None,
    }
}


// ---------------------------------------------------------------------------
// Walking the steps of the reply

#[derive(Debug, Clone, Copy, PartialEq, Eq, Structural)]
pub enum NsKind {
    Dav,
    Caldav,
    Carddav,
    Apple,
    Other,
}

pub open spec fn ns_kind(ns: Option<Seq<char>>) -> NsKind {
    match ns {
        Some(n) => if n == NS_DAV@ {
            NsKind::Dav
        } else if n == NS_CALDAV@ {
            NsKind::Caldav
        } else if n == NS_CARDDAV@ {
            NsKind::Carddav
        } else if n == NS_APPLE_ICAL@ {
            NsKind::Apple
        } else {
            NsKind::Other
        },
        None => NsKind::Other,
    }
}

/// An element of namespace `k` whose local name is `target`, in any case.
pub open spec fn is_el(ns: Option<Seq<char>>, name: Seq<char>, k: NsKind, target: Seq<char>) -> bool {
    ns_kind(ns) == k && eq_ignore_case(local_name(name), target)
}

fn classify_ns(ns: &Option<String>) -> (r: NsKind)
    ensures
        r == ns_kind(opt_string_view(*ns)),
{
    match ns {
        Some(n) => if str_eq(n.as_str(), NS_DAV) {
            NsKind::Dav
        } else if str_eq(n.as_str(), NS_CALDAV) {
            NsKind::Caldav
        } else if str_eq(n.as_str(), NS_CARDDAV) {
            NsKind::Carddav
        } else if str_eq(n.as_str(), NS_APPLE_ICAL) {
            NsKind::Apple
        } else {
            NsKind::Other
        },
        None => NsKind::Other,
    }
}

fn is(kind: NsKind, local: &str, expected: NsKind, target: &str) -> (r: bool)
    ensures
        r == (kind == expected && eq_ignore_case(local@, target@)),
{
    kind == expected && str_eq_ignore_case(local, target)
}

/// The step at `i`; past the end, the end of the document.
pub open spec fn at(s: Seq<XmlStepV>, i: int) -> XmlStepV {
    if 0 <= i < s.len() { s[i] } else { XmlStepV::Eof }
}

proof fn lemma_next(s: Seq<XmlStepV>, k: int)
    requires
        well_ended(s),
        0 <= k < s.len(),
        !is_terminal(s[k]),
    ensures
        k + 1 < s.len(),
{
    if k == s.len() - 1 {
        assert(is_terminal(s.last()));
    }
}

/// What a walk that returns nothing gives: an error message, or the index
/// after the steps it read.
pub open spec fn unit_outcome(spec: (Result<(), Seq<char>>, int), r: Result<usize, String>, i: int, n: int) -> bool {
    match spec.0 {
        Ok(_) => r matches Ok(j) && j == spec.1 && i < j < n,
        Err(e) => r matches Err(m) && m@ == e,
    }
}

/// What a walk that returns a text gives.
pub open spec fn text_outcome(spec: (Result<Seq<char>, Seq<char>>, int), r: Result<(String, usize), String>, i: int, n: int) -> bool {
    match spec.0 {
        Ok(v) => r matches Ok(p) && p.0@ == v && p.1 == spec.1 && i < p.1 < n,
        Err(e) => r matches Err(m) && m@ == e,
    }
}

/// What a walk that returns an optional text gives.
pub open spec fn opt_text_outcome(spec: (Result<Option<Seq<char>>, Seq<char>>, int), r: Result<(Option<String>, usize), String>, i: int, n: int) -> bool {
    match spec.0 {
        Ok(v) => r matches Ok(p) && opt_string_view(p.0) == v && p.1 == spec.1 && i < p.1 < n,
        Err(e) => r matches Err(m) && m@ == e,
    }
}

/// Skipping the rest of an element whose opening tag was read: the steps up
/// to the closing tag that brings the nesting `depth` to zero.
pub open spec fn skip_spec(s: Seq<XmlStepV>, i: int, depth: nat) -> (Result<(), Seq<char>>, int)
    decreases s.len() - i,
{
    if i < 0 || i >= s.len() {
        (Err("unexpected EOF in skip"@), i)
    } else {
        match s[i] {
            XmlStepV::Start(..) => skip_spec(s, i + 1, depth + 1),
            XmlStepV::End(..) => if depth <= 1 {
                (Ok(()), i + 1)
            } else {
                skip_spec(s, i + 1, (depth - 1) as nat)
            },
            XmlStepV::Eof => (Err("unexpected EOF in skip"@), i + 1),
            XmlStepV::Failed(m) => (Err(m), i + 1),
            _ => skip_spec(s, i + 1, depth),
        }
    }
}

fn skip_element(steps: &Vec<XmlStep>, i: usize) -> (r: Result<usize, String>)
    requires
        well_ended(steps_view(steps@)),
        i < steps@.len(),
    ensures
        unit_outcome(skip_spec(steps_view(steps@), i as int, 1), r, i as int, steps@.len() as int),
{
    let ghost s = steps_view(steps@);
    let n = steps.len();
    let mut k: usize = i;
    let mut depth: usize = 1;
    loop
        invariant
            s == steps_view(steps@),
            s.len() == steps@.len(),
            n == s.len(),
            well_ended(s),
            i <= k < s.len(),
            1 <= depth <= k - i + 1,
            skip_spec(s, i as int, 1) == skip_spec(s, k as int, depth as nat),
        decreases s.len() - k,
    {
        assert(s[k as int] == steps@[k as int]@);
        match &steps[k] {
            XmlStep::Start(..) => {
                proof { lemma_next(s, k as int); }
                depth = depth + 1;
                k = k + 1;
            },
            XmlStep::End(..) => {
                proof { lemma_next(s, k as int); }
                if depth == 1 {
                    return Ok(k + 1);
                }
                depth = depth - 1;
                k = k + 1;
            },
            XmlStep::Eof => {
                return Err("unexpected EOF in skip".to_owned());
            },
            XmlStep::Failed(m) => {
                return Err(m.clone());
            },
            _ => {
                proof { lemma_next(s, k as int); }
                k = k + 1;
            },
        }
    }
}

/// Reading the text of an element whose opening tag was read: its character
/// data and CDATA, nested elements skipped, up to the next closing or empty tag.
pub open spec fn read_text_spec(s: Seq<XmlStepV>, i: int, acc: Seq<char>) -> (Result<Seq<char>, Seq<char>>, int)
    decreases s.len() - i,
{
    if i < 0 || i >= s.len() {
        (Err("unexpected EOF reading text"@), i)
    } else {
        match s[i] {
            XmlStepV::Text(t) => read_text_spec(s, i + 1, acc + t),
            XmlStepV::CData(t) => read_text_spec(s, i + 1, acc + t),
            XmlStepV::Start(..) => {
                let (r, j) = skip_spec(s, i + 1, 1);
                match r {
                    Err(e) => (Err(e), j),
                    Ok(_) => if i < j <= s.len() { read_text_spec(s, j, acc) } else { (Ok(acc), j) },
                }
            },
            XmlStepV::End(..) => (Ok(acc), i + 1),
            XmlStepV::Empty(..) => (Ok(acc), i + 1),
            XmlStepV::Eof => (Err("unexpected EOF reading text"@), i + 1),
            XmlStepV::Failed(m) => (Err(m), i + 1),
            XmlStepV::Other => read_text_spec(s, i + 1, acc),
        }
    }
}

fn read_text(steps: &Vec<XmlStep>, i: usize) -> (r: Result<(String, usize), String>)
    requires
        well_ended(steps_view(steps@)),
        i < steps@.len(),
    ensures
        text_outcome(read_text_spec(steps_view(steps@), i as int, Seq::empty()), r, i as int, steps@.len() as int),
{
    let ghost s = steps_view(steps@);
    let n = steps.len();
    let mut out = String::new();
    let mut k: usize = i;
    loop
        invariant
            s == steps_view(steps@),
            s.len() == steps@.len(),
            n == s.len(),
            well_ended(s),
            i <= k < s.len(),
            read_text_spec(s, i as int, Seq::empty()) == read_text_spec(s, k as int, out@),
        decreases s.len() - k,
    {
        assert(s[k as int] == steps@[k as int]@);
        match &steps[k] {
            XmlStep::Text(t) => {
                proof { lemma_next(s, k as int); }
                out.append(t.as_str());
                k = k + 1;
            },
            XmlStep::CData(t) => {
                proof { lemma_next(s, k as int); }
                out.append(t.as_str());
                k = k + 1;
            },
            XmlStep::Start(..) => {
                proof { lemma_next(s, k as int); }
                match skip_element(steps, k + 1) {
                    Ok(j) => {
                        k = j;
                    },
                    Err(e) => {
                        return Err(e);
                    },
                }
            },
            XmlStep::End(..) => {
                proof { lemma_next(s, k as int); }
                return Ok((out, k + 1));
            },
            XmlStep::Empty(..) => {
                proof { lemma_next(s, k as int); }
                return Ok((out, k + 1));
            },
            XmlStep::Eof => {
                return Err("unexpected EOF reading text".to_owned());
            },
            XmlStep::Failed(m) => {
                return Err(m.clone());
            },
            XmlStep::Other => {
                proof { lemma_next(s, k as int); }
                k = k + 1;
            },
        }
    }
}

/// The text of an element, trimmed.
pub open spec fn read_token_spec(s: Seq<XmlStepV>, i: int) -> (Result<Seq<char>, Seq<char>>, int) {
    let (r, j) = read_text_spec(s, i, Seq::empty());
    match r {
        Ok(t) => (Ok(trimmed(t)), j),
        Err(e) => (Err(e), j),
    }
}

fn read_token(steps: &Vec<XmlStep>, i: usize) -> (r: Result<(String, usize), String>)
    requires
        well_ended(steps_view(steps@)),
        i < steps@.len(),
    ensures
        text_outcome(read_token_spec(steps_view(steps@), i as int), r, i as int, steps@.len() as int),
{
    match read_text(steps, i) {
        Ok((t, j)) => Ok((trim_chars(t.as_str()), j)),
        Err(e) => Err(e),
    }
}

/// Reading the first `href` of an element whose opening tag was read, up to
/// the closing tag named `closing`; other elements are skipped.
pub open spec fn first_href_spec(s: Seq<XmlStepV>, i: int, out: Option<Seq<char>>, closing: Seq<char>) -> (Result<Option<Seq<char>>, Seq<char>>, int)
    decreases s.len() - i,
{
    if i < 0 || i >= s.len() {
        (Err("unexpected EOF reading href"@), i)
    } else {
        match s[i] {
            XmlStepV::Start(ns, name, _) => if out is None && is_el(ns, name, NsKind::Dav, "href"@) {
                let (r, j) = read_token_spec(s, i + 1);
                match r {
                    Err(e) => (Err(e), j),
                    Ok(t) => if i < j <= s.len() { first_href_spec(s, j, Some(t), closing) } else { (Ok(out), j) },
                }
            } else {
                let (r, j) = skip_spec(s, i + 1, 1);
                match r {
                    Err(e) => (Err(e), j),
                    Ok(_) => if i < j <= s.len() { first_href_spec(s, j, out, closing) } else { (Ok(out), j) },
                }
            },
            XmlStepV::End(_, name) => if eq_ignore_case(local_name(name), closing) {
                (Ok(out), i + 1)
            } else {
                first_href_spec(s, i + 1, out, closing)
            },
            XmlStepV::Eof => (Err("unexpected EOF reading href"@), i + 1),
            XmlStepV::Failed(m) => (Err(m), i + 1),
            _ => first_href_spec(s, i + 1, out, closing),
        }
    }
}

fn read_first_href(steps: &Vec<XmlStep>, i: usize, closing: &str) -> (r: Result<(Option<String>, usize), String>)
    requires
        well_ended(steps_view(steps@)),
        i < steps@.len(),
    ensures
        opt_text_outcome(first_href_spec(steps_view(steps@), i as int, None, closing@), r, i as int, steps@.len() as int),
{
    let ghost s = steps_view(steps@);
    let n = steps.len();
    let mut out: Option<String> = None;
    let mut k: usize = i;
    loop
        invariant
            s == steps_view(steps@),
            s.len() == steps@.len(),
            n == s.len(),
            well_ended(s),
            i <= k < s.len(),
            first_href_spec(s, i as int, None, closing@) == first_href_spec(s, k as int, opt_string_view(out), closing@),
        decreases s.len() - k,
    {
        assert(s[k as int] == steps@[k as int]@);
        match &steps[k] {
            XmlStep::Start(ns, name, _) => {
                proof { lemma_next(s, k as int); }
                let kind = classify_ns(ns);
                let local = local_name_of(name.as_str());
                if out.is_none() && is(kind, local.as_str(), NsKind::Dav, "href") {
                    match read_token(steps, k + 1) {
                        Ok((t, j)) => {
                            out = Some(t);
                            k = j;
                        },
                        Err(e) => {
                            return Err(e);
                        },
                    }
                } else {
                    match skip_element(steps, k + 1) {
                        Ok(j) => {
                            k = j;
                        },
                        Err(e) => {
                            return Err(e);
                        },
                    }
                }
            },
            XmlStep::End(_, name) => {
                proof { lemma_next(s, k as int); }
                let local = local_name_of(name.as_str());
                if str_eq_ignore_case(local.as_str(), closing) {
                    return Ok((out, k + 1));
                }
                k = k + 1;
            },
            XmlStep::Eof => {
                return Err("unexpected EOF reading href".to_owned());
            },
            XmlStep::Failed(m) => {
                return Err(m.clone());
            },
            _ => {
                proof { lemma_next(s, k as int); }
                k = k + 1;
            },
        }
    }
}


/// What a walk that returns properties gives.
pub open spec fn props_outcome(spec: (Result<PropsV, Seq<char>>, int), r: Result<(ResourceProps, usize), String>, i: int, n: int) -> bool {
    match spec.0 {
        Ok(v) => r matches Ok(p) && p.0@ == v && p.1 == spec.1 && i < p.1 < n,
        Err(e) => r matches Err(m) && m@ == e,
    }
}

/// The resource type an element of `resourcetype` marks.
pub open spec fn marked(p: PropsV, ns: Option<Seq<char>>, name: Seq<char>) -> PropsV {
    if is_el(ns, name, NsKind::Dav, "collection"@) {
        PropsV { is_collection: true, ..p }
    } else if is_el(ns, name, NsKind::Caldav, "calendar"@) {
        PropsV { is_calendar: true, ..p }
    } else if is_el(ns, name, NsKind::Carddav, "addressbook"@) {
        PropsV { is_addressbook: true, ..p }
    } else {
        p
    }
}

fn mark_resourcetype(ns: &Option<String>, name: &str, p: ResourceProps) -> (r: ResourceProps)
    ensures
        r@ == marked(p@, opt_string_view(*ns), name@),
{
    let kind = classify_ns(ns);
    let local = local_name_of(name);
    let mut p = p;
    if is(kind, local.as_str(), NsKind::Dav, "collection") {
        p.is_collection = true;
    } else if is(kind, local.as_str(), NsKind::Caldav, "calendar") {
        p.is_calendar = true;
    } else if is(kind, local.as_str(), NsKind::Carddav, "addressbook") {
        p.is_addressbook = true;
    }
    p
}

/// Reading the content of `resourcetype`: every element in it marks a type.
pub open spec fn resourcetype_spec(s: Seq<XmlStepV>, i: int, p: PropsV) -> (Result<PropsV, Seq<char>>, int)
    decreases s.len() - i,
{
    if i < 0 || i >= s.len() {
        (Err("unexpected EOF in <resourcetype>"@), i)
    } else {
        match s[i] {
            XmlStepV::Start(ns, name, _) => {
                let (r, j) = skip_spec(s, i + 1, 1);
                match r {
                    Err(e) => (Err(e), j),
                    Ok(_) => if i < j <= s.len() { resourcetype_spec(s, j, marked(p, ns, name)) } else { (Ok(p), j) },
                }
            },
            XmlStepV::Empty(ns, name, _) => resourcetype_spec(s, i + 1, marked(p, ns, name)),
            XmlStepV::End(ns, name) => if is_el(ns, name, NsKind::Dav, "resourcetype"@) {
                (Ok(p), i + 1)
            } else {
                resourcetype_spec(s, i + 1, p)
            },
            XmlStepV::Eof => (Err("unexpected EOF in <resourcetype>"@), i + 1),
            XmlStepV::Failed(m) => (Err(m), i + 1),
            _ => resourcetype_spec(s, i + 1, p),
        }
    }
}

fn consume_resourcetype(steps: &Vec<XmlStep>, i: usize, props: ResourceProps) -> (r: Result<(ResourceProps, usize), String>)
    requires
        well_ended(steps_view(steps@)),
        i < steps@.len(),
    ensures
        props_outcome(resourcetype_spec(steps_view(steps@), i as int, props@), r, i as int, steps@.len() as int),
{
    let ghost s = steps_view(steps@);
    let n = steps.len();
    let mut p = props;
    let mut k: usize = i;
    loop
        invariant
            s == steps_view(steps@),
            s.len() == steps@.len(),
            n == s.len(),
            well_ended(s),
            i <= k < s.len(),
            resourcetype_spec(s, i as int, props@) == resourcetype_spec(s, k as int, p@),
        decreases s.len() - k,
    {
        assert(s[k as int] == steps@[k as int]@);
        match &steps[k] {
            XmlStep::Start(ns, name, _) => {
                proof { lemma_next(s, k as int); }
                p = mark_resourcetype(ns, name.as_str(), p);
                match skip_element(steps, k + 1) {
                    Ok(j) => {
                        k = j;
                    },
                    Err(e) => {
                        return Err(e);
                    },
                }
            },
            XmlStep::Empty(ns, name, _) => {
                proof { lemma_next(s, k as int); }
                p = mark_resourcetype(ns, name.as_str(), p);
                k = k + 1;
            },
            XmlStep::End(ns, name) => {
                proof { lemma_next(s, k as int); }
                let kind = classify_ns(ns);
                let local = local_name_of(name.as_str());
                if is(kind, local.as_str(), NsKind::Dav, "resourcetype") {
                    return Ok((p, k + 1));
                }
                k = k + 1;
            },
            XmlStep::Eof => {
                return Err("unexpected EOF in <resourcetype>".to_owned());
            },
            XmlStep::Failed(m) => {
                return Err(m.clone());
            },
            _ => {
                proof { lemma_next(s, k as int); }
                k = k + 1;
            },
        }
    }
}

/// The component that a `comp` element with these attributes names, added.
pub open spec fn with_component(p: PropsV, attrs: Seq<char>) -> PropsV {
    match attribute_value(wellformed_attributes(xml_attribute_list(attrs)), "name"@) {
        Some(v) => PropsV { supported_components: p.supported_components.push(v), ..p },
        None => p,
    }
}

fn add_component(attrs: &str, p: ResourceProps) -> (r: ResourceProps)
    ensures
        r@ == with_component(p@, attrs@),
{
    let mut p = p;
    match find_attribute(attrs, "name") {
        Some(v) => {
            let ghost before = strings_view(p.supported_components@);
            let ghost vv = v@;
            p.supported_components.push(v);
            assert(strings_view(p.supported_components@) =~= before.push(vv));
        },
        None => {},
    }
    p
}

/// Reading `supported-calendar-component-set`: the `name` of each `comp`.
pub open spec fn components_spec(s: Seq<XmlStepV>, i: int, p: PropsV) -> (Result<PropsV, Seq<char>>, int)
    decreases s.len() - i,
{
    if i < 0 || i >= s.len() {
        (Err("unexpected EOF in <supported-calendar-component-set>"@), i)
    } else {
        match s[i] {
            XmlStepV::Start(ns, name, attrs) => if is_el(ns, name, NsKind::Caldav, "comp"@) {
                let (r, j) = skip_spec(s, i + 1, 1);
                match r {
                    Err(e) => (Err(e), j),
                    Ok(_) => if i < j <= s.len() { components_spec(s, j, with_component(p, attrs)) } else { (Ok(p), j) },
                }
            } else {
                components_spec(s, i + 1, p)
            },
            XmlStepV::Empty(ns, name, attrs) => if is_el(ns, name, NsKind::Caldav, "comp"@) {
                components_spec(s, i + 1, with_component(p, attrs))
            } else {
                components_spec(s, i + 1, p)
            },
            XmlStepV::End(ns, name) => if is_el(ns, name, NsKind::Caldav, "supported-calendar-component-set"@) {
                (Ok(p), i + 1)
            } else {
                components_spec(s, i + 1, p)
            },
            XmlStepV::Eof => (Err("unexpected EOF in <supported-calendar-component-set>"@), i + 1),
            XmlStepV::Failed(m) => (Err(m), i + 1),
            _ => components_spec(s, i + 1, p),
        }
    }
}

fn consume_supported_components(steps: &Vec<XmlStep>, i: usize, props: ResourceProps) -> (r: Result<(ResourceProps, usize), String>)
    requires
        well_ended(steps_view(steps@)),
        i < steps@.len(),
    ensures
        props_outcome(components_spec(steps_view(steps@), i as int, props@), r, i as int, steps@.len() as int),
{
    let ghost s = steps_view(steps@);
    let n = steps.len();
    let mut p = props;
    let mut k: usize = i;
    loop
        invariant
            s == steps_view(steps@),
            s.len() == steps@.len(),
            n == s.len(),
            well_ended(s),
            i <= k < s.len(),
            components_spec(s, i as int, props@) == components_spec(s, k as int, p@),
        decreases s.len() - k,
    {
        assert(s[k as int] == steps@[k as int]@);
        match &steps[k] {
            XmlStep::Start(ns, name, attrs) => {
                proof { lemma_next(s, k as int); }
                let kind = classify_ns(ns);
                let local = local_name_of(name.as_str());
                if is(kind, local.as_str(), NsKind::Caldav, "comp") {
                    p = add_component(attrs.as_str(), p);
                    match skip_element(steps, k + 1) {
                        Ok(j) => {
                            k = j;
                        },
                        Err(e) => {
                            return Err(e);
                        },
                    }
                } else {
                    k = k + 1;
                }
            },
            XmlStep::Empty(ns, name, attrs) => {
                proof { lemma_next(s, k as int); }
                let kind = classify_ns(ns);
                let local = local_name_of(name.as_str());
                if is(kind, local.as_str(), NsKind::Caldav, "comp") {
                    p = add_component(attrs.as_str(), p);
                }
                k = k + 1;
            },
            XmlStep::End(ns, name) => {
                proof { lemma_next(s, k as int); }
                let kind = classify_ns(ns);
                let local = local_name_of(name.as_str());
                if is(kind, local.as_str(), NsKind::Caldav, "supported-calendar-component-set") {
                    return Ok((p, k + 1));
                }
                k = k + 1;
            },
            XmlStep::Eof => {
                return Err("unexpected EOF in <supported-calendar-component-set>".to_owned());
            },
            XmlStep::Failed(m) => {
                return Err(m.clone());
            },
            _ => {
                proof { lemma_next(s, k as int); }
                k = k + 1;
            },
        }
    }
}


/// The properties that a text read by a walk gives, or its error.
pub open spec fn with_text(r: (Result<Seq<char>, Seq<char>>, int), f: spec_fn(Seq<char>) -> PropsV) -> (Result<PropsV, Seq<char>>, int) {
    match r.0 {
        Ok(t) => (Ok(f(t)), r.1),
        Err(e) => (Err(e), r.1),
    }
}

/// The properties that an href read by a walk gives, or its error.
pub open spec fn with_href(r: (Result<Option<Seq<char>>, Seq<char>>, int), f: spec_fn(Option<Seq<char>>) -> PropsV) -> (Result<PropsV, Seq<char>>, int) {
    match r.0 {
        Ok(h) => (Ok(f(h)), r.1),
        Err(e) => (Err(e), r.1),
    }
}

pub open spec fn u64_of(t: Seq<char>) -> Option<u64> {
    match unsigned_value(t, 0xffff_ffff_ffff_ffff) {
        Some(v) => Some(v as u64),
        None => None,
    }
}

pub open spec fn i64_of(t: Seq<char>) -> Option<i64> {
    match signed_value(t) {
        Some(v) => Some(v as i64),
        None => None,
    }
}

/// Reading one property element of a `prop` block whose opening tag (namespace
/// `ns`, name `name`) was read.
pub open spec fn prop_element_spec(s: Seq<XmlStepV>, i: int, p: PropsV, ns: Option<Seq<char>>, name: Seq<char>) -> (Result<PropsV, Seq<char>>, int) {
    if is_el(ns, name, NsKind::Dav, "resourcetype"@) {
        resourcetype_spec(s, i, p)
    } else if is_el(ns, name, NsKind::Dav, "displayname"@) {
        with_text(read_token_spec(s, i), |t: Seq<char>| PropsV { displayname: Some(t), ..p })
    } else if is_el(ns, name, NsKind::Dav, "current-user-principal"@) {
        with_href(first_href_spec(s, i, None, "current-user-principal"@), |h: Option<Seq<char>>| PropsV { current_user_principal: h, ..p })
    } else if is_el(ns, name, NsKind::Caldav, "calendar-home-set"@) {
        with_href(first_href_spec(s, i, None, "calendar-home-set"@), |h: Option<Seq<char>>| PropsV { calendar_home_set: h, ..p })
    } else if is_el(ns, name, NsKind::Carddav, "addressbook-home-set"@) {
        with_href(first_href_spec(s, i, None, "addressbook-home-set"@), |h: Option<Seq<char>>| PropsV { addressbook_home_set: h, ..p })
    } else if is_el(ns, name, NsKind::Dav, "getetag"@) {
        with_text(read_token_spec(s, i), |t: Seq<char>| if t.len() > 0 { PropsV { etag: Some(t), ..p } } else { p })
    } else if is_el(ns, name, NsKind::Dav, "getcontenttype"@) {
        with_text(read_token_spec(s, i), |t: Seq<char>| PropsV { content_type: Some(t), ..p })
    } else if is_el(ns, name, NsKind::Dav, "getlastmodified"@) {
        with_text(read_token_spec(s, i), |t: Seq<char>| PropsV { last_modified: Some(t), ..p })
    } else if is_el(ns, name, NsKind::Dav, "creationdate"@) {
        with_text(read_token_spec(s, i), |t: Seq<char>| PropsV { creation_date: Some(t), ..p })
    } else if is_el(ns, name, NsKind::Dav, "getcontentlength"@) {
        with_text(read_token_spec(s, i), |t: Seq<char>| PropsV { content_length: u64_of(t), ..p })
    } else if is_el(ns, name, NsKind::Caldav, "calendar-description"@) {
        with_text(read_token_spec(s, i), |t: Seq<char>| PropsV { calendar_description: Some(t), ..p })
    } else if is_el(ns, name, NsKind::Carddav, "addressbook-description"@) {
        with_text(read_token_spec(s, i), |t: Seq<char>| PropsV { addressbook_description: Some(t), ..p })
    } else if is_el(ns, name, NsKind::Apple, "calendar-color"@) {
        with_text(read_token_spec(s, i), |t: Seq<char>| PropsV { calendar_color: Some(t), ..p })
    } else if is_el(ns, name, NsKind::Apple, "calendar-order"@) {
        with_text(read_token_spec(s, i), |t: Seq<char>| PropsV { calendar_order: i64_of(t), ..p })
    } else if is_el(ns, name, NsKind::Caldav, "calendar-timezone"@) {
        with_text(read_token_spec(s, i), |t: Seq<char>| PropsV { calendar_timezone: Some(t), ..p })
    } else if is_el(ns, name, NsKind::Caldav, "supported-calendar-component-set"@) {
        components_spec(s, i, p)
    } else if is_el(ns, name, NsKind::Caldav, "calendar-data"@) {
        with_text(read_text_spec(s, i, Seq::empty()), |t: Seq<char>| PropsV { calendar_data: Some(t), ..p })
    } else if is_el(ns, name, NsKind::Carddav, "address-data"@) {
        with_text(read_text_spec(s, i, Seq::empty()), |t: Seq<char>| PropsV { address_data: Some(t), ..p })
    } else {
        let (r, j) = skip_spec(s, i, 1);
        match r {
            Ok(_) => (Ok(p), j),
            Err(e) => (Err(e), j),
        }
    }
}

/// Reads one property element of a `prop` block whose opening tag was read.
#[verifier::rlimit(80)]
fn handle_prop_element(steps: &Vec<XmlStep>, i: usize, props: ResourceProps, ns: &Option<String>, name: &str) -> (r: Result<(ResourceProps, usize), String>)
    requires
        well_ended(steps_view(steps@)),
        i < steps@.len(),
    ensures
        props_outcome(prop_element_spec(steps_view(steps@), i as int, props@, opt_string_view(*ns), name@), r, i as int, steps@.len() as int),
{
    let kind = classify_ns(ns);
    let local = local_name_of(name);
    let l = local.as_str();
    let mut p = props;
    if is(kind, l, NsKind::Dav, "resourcetype") {
        consume_resourcetype(steps, i, p)
    } else if is(kind, l, NsKind::Dav, "displayname") {
        let (t, j) = match read_token(steps, i) { Ok(v) => v, Err(e) => return Err(e) };
        p.displayname = Some(t);
        Ok((p, j))
    } else if is(kind, l, NsKind::Dav, "current-user-principal") {
        let (h, j) = match read_first_href(steps, i, "current-user-principal") { Ok(v) => v, Err(e) => return Err(e) };
        p.current_user_principal = h;
        Ok((p, j))
    } else if is(kind, l, NsKind::Caldav, "calendar-home-set") {
        let (h, j) = match read_first_href(steps, i, "calendar-home-set") { Ok(v) => v, Err(e) => return Err(e) };
        p.calendar_home_set = h;
        Ok((p, j))
    } else if is(kind, l, NsKind::Carddav, "addressbook-home-set") {
        let (h, j) = match read_first_href(steps, i, "addressbook-home-set") { Ok(v) => v, Err(e) => return Err(e) };
        p.addressbook_home_set = h;
        Ok((p, j))
    } else if is(kind, l, NsKind::Dav, "getetag") {
        let (t, j) = match read_token(steps, i) { Ok(v) => v, Err(e) => return Err(e) };
        if !t.as_str().is_empty() {
            p.etag = Some(t);
        }
        Ok((p, j))
    } else if is(kind, l, NsKind::Dav, "getcontenttype") {
        let (t, j) = match read_token(steps, i) { Ok(v) => v, Err(e) => return Err(e) };
        p.content_type = Some(t);
        Ok((p, j))
    } else if is(kind, l, NsKind::Dav, "getlastmodified") {
        let (t, j) = match read_token(steps, i) { Ok(v) => v, Err(e) => return Err(e) };
        p.last_modified = Some(t);
        Ok((p, j))
    } else if is(kind, l, NsKind::Dav, "creationdate") {
        let (t, j) = match read_token(steps, i) { Ok(v) => v, Err(e) => return Err(e) };
        p.creation_date = Some(t);
        Ok((p, j))
    } else if is(kind, l, NsKind::Dav, "getcontentlength") {
        let (t, j) = match read_token(steps, i) { Ok(v) => v, Err(e) => return Err(e) };
        p.content_length = parse_unsigned(t.as_str(), 0xffff_ffff_ffff_ffff);
        Ok((p, j))
    } else if is(kind, l, NsKind::Caldav, "calendar-description") {
        let (t, j) = match read_token(steps, i) { Ok(v) => v, Err(e) => return Err(e) };
        p.calendar_description = Some(t);
        Ok((p, j))
    } else if is(kind, l, NsKind::Carddav, "addressbook-description") {
        let (t, j) = match read_token(steps, i) { Ok(v) => v, Err(e) => return Err(e) };
        p.addressbook_description = Some(t);
        Ok((p, j))
    } else if is(kind, l, NsKind::Apple, "calendar-color") {
        let (t, j) = match read_token(steps, i) { Ok(v) => v, Err(e) => return Err(e) };
        p.calendar_color = Some(t);
        Ok((p, j))
    } else if is(kind, l, NsKind::Apple, "calendar-order") {
        let (t, j) = match read_token(steps, i) { Ok(v) => v, Err(e) => return Err(e) };
        p.calendar_order = parse_i64(t.as_str());
        Ok((p, j))
    } else if is(kind, l, NsKind::Caldav, "calendar-timezone") {
        let (t, j) = match read_token(steps, i) { Ok(v) => v, Err(e) => return Err(e) };
        p.calendar_timezone = Some(t);
        Ok((p, j))
    } else if is(kind, l, NsKind::Caldav, "supported-calendar-component-set") {
        consume_supported_components(steps, i, p)
    } else if is(kind, l, NsKind::Caldav, "calendar-data") {
        let (t, j) = match read_text(steps, i) { Ok(v) => v, Err(e) => return Err(e) };
        p.calendar_data = Some(t);
        Ok((p, j))
    } else if is(kind, l, NsKind::Carddav, "address-data") {
        let (t, j) = match read_text(steps, i) { Ok(v) => v, Err(e) => return Err(e) };
        p.address_data = Some(t);
        Ok((p, j))
    } else {
        let j = match skip_element(steps, i) { Ok(j) => j, Err(e) => return Err(e) };
        Ok((p, j))
    }
}


/// Reading a `prop` block whose opening tag was read.
pub open spec fn prop_block_spec(s: Seq<XmlStepV>, i: int, p: PropsV) -> (Result<PropsV, Seq<char>>, int)
    decreases s.len() - i,
{
    if i < 0 || i >= s.len() {
        (Err("unexpected EOF in <prop>"@), i)
    } else {
        match s[i] {
            XmlStepV::Start(ns, name, _) => {
                let (r, j) = prop_element_spec(s, i + 1, p, ns, name);
                match r {
                    Err(e) => (Err(e), j),
                    Ok(q) => if i < j <= s.len() { prop_block_spec(s, j, q) } else { (Ok(p), j) },
                }
            },
            XmlStepV::End(ns, name) => if is_el(ns, name, NsKind::Dav, "prop"@) {
                (Ok(p), i + 1)
            } else {
                prop_block_spec(s, i + 1, p)
            },
            XmlStepV::Eof => (Err("unexpected EOF in <prop>"@), i + 1),
            XmlStepV::Failed(m) => (Err(m), i + 1),
            _ => prop_block_spec(s, i + 1, p),
        }
    }
}

fn parse_prop_block(steps: &Vec<XmlStep>, i: usize, props: ResourceProps) -> (r: Result<(ResourceProps, usize), String>)
    requires
        well_ended(steps_view(steps@)),
        i < steps@.len(),
    ensures
        props_outcome(prop_block_spec(steps_view(steps@), i as int, props@), r, i as int, steps@.len() as int),
{
    let ghost s = steps_view(steps@);
    let n = steps.len();
    let mut p = props;
    let mut k: usize = i;
    loop
        invariant
            s == steps_view(steps@),
            s.len() == steps@.len(),
            n == s.len(),
            well_ended(s),
            i <= k < s.len(),
            prop_block_spec(s, i as int, props@) == prop_block_spec(s, k as int, p@),
        decreases s.len() - k,
    {
        assert(s[k as int] == steps@[k as int]@);
        match &steps[k] {
            XmlStep::Start(ns, name, _) => {
                proof { lemma_next(s, k as int); }
                match handle_prop_element(steps, k + 1, p, ns, name.as_str()) {
                    Ok((q, j)) => {
                        p = q;
                        k = j;
                    },
                    Err(e) => {
                        return Err(e);
                    },
                }
            },
            XmlStep::End(ns, name) => {
                proof { lemma_next(s, k as int); }
                let kind = classify_ns(ns);
                let local = local_name_of(name.as_str());
                if is(kind, local.as_str(), NsKind::Dav, "prop") {
                    return Ok((p, k + 1));
                }
                k = k + 1;
            },
            XmlStep::Eof => {
                return Err("unexpected EOF in <prop>".to_owned());
            },
            XmlStep::Failed(m) => {
                return Err(m.clone());
            },
            _ => {
                proof { lemma_next(s, k as int); }
                k = k + 1;
            },
        }
    }
}

/// Reading a `propstat` block whose opening tag was read: its status and the
/// properties of its `prop` blocks.
pub open spec fn propstat_spec(s: Seq<XmlStepV>, i: int, status: Option<u16>, p: PropsV) -> (Result<(Option<u16>, PropsV), Seq<char>>, int)
    decreases s.len() - i,
{
    if i < 0 || i >= s.len() {
        (Err("unexpected EOF in <propstat>"@), i)
    } else {
        match s[i] {
            XmlStepV::Start(ns, name, _) => if is_el(ns, name, NsKind::Dav, "status"@) {
                let (r, j) = read_token_spec(s, i + 1);
                match r {
                    Err(e) => (Err(e), j),
                    Ok(t) => if i < j <= s.len() { propstat_spec(s, j, http_status_code(t), p) } else { (Ok((status, p)), j) },
                }
            } else if is_el(ns, name, NsKind::Dav, "prop"@) {
                let (r, j) = prop_block_spec(s, i + 1, p);
                match r {
                    Err(e) => (Err(e), j),
                    Ok(q) => if i < j <= s.len() { propstat_spec(s, j, status, q) } else { (Ok((status, p)), j) },
                }
            } else {
                let (r, j) = skip_spec(s, i + 1, 1);
                match r {
                    Err(e) => (Err(e), j),
                    Ok(_) => if i < j <= s.len() { propstat_spec(s, j, status, p) } else { (Ok((status, p)), j) },
                }
            },
            XmlStepV::End(ns, name) => if is_el(ns, name, NsKind::Dav, "propstat"@) {
                (Ok((status, p)), i + 1)
            } else {
                propstat_spec(s, i + 1, status, p)
            },
            XmlStepV::Eof => (Err("unexpected EOF in <propstat>"@), i + 1),
            XmlStepV::Failed(m) => (Err(m), i + 1),
            _ => propstat_spec(s, i + 1, status, p),
        }
    }
}

fn parse_propstat(steps: &Vec<XmlStep>, i: usize) -> (r: Result<(Option<u16>, ResourceProps, usize), String>)
    requires
        well_ended(steps_view(steps@)),
        i < steps@.len(),
    ensures
        match propstat_spec(steps_view(steps@), i as int, None, no_props()).0 {
            Ok(v) => r matches Ok(x) && x.0 == v.0 && x.1@ == v.1 && x.2 == propstat_spec(steps_view(steps@), i as int, None, no_props()).1 && i < x.2 < steps@.len(),
            Err(e) => r matches Err(m) && m@ == e,
        },
{
    let ghost s = steps_view(steps@);
    let n = steps.len();
    let mut status: Option<u16> = None;
    let mut p = ResourceProps::default();
    let mut k: usize = i;
    loop
        invariant
            s == steps_view(steps@),
            s.len() == steps@.len(),
            n == s.len(),
            well_ended(s),
            i <= k < s.len(),
            propstat_spec(s, i as int, None, no_props()) == propstat_spec(s, k as int, status, p@),
        decreases s.len() - k,
    {
        assert(s[k as int] == steps@[k as int]@);
        match &steps[k] {
            XmlStep::Start(ns, name, _) => {
                proof { lemma_next(s, k as int); }
                let kind = classify_ns(ns);
                let local = local_name_of(name.as_str());
                if is(kind, local.as_str(), NsKind::Dav, "status") {
                    match read_token(steps, k + 1) {
                        Ok((t, j)) => {
                            status = parse_http_status(t.as_str());
                            k = j;
                        },
                        Err(e) => {
                            return Err(e);
                        },
                    }
                } else if is(kind, local.as_str(), NsKind::Dav, "prop") {
                    match parse_prop_block(steps, k + 1, p) {
                        Ok((q, j)) => {
                            p = q;
                            k = j;
                        },
                        Err(e) => {
                            return Err(e);
                        },
                    }
                } else {
                    match skip_element(steps, k + 1) {
                        Ok(j) => {
                            k = j;
                        },
                        Err(e) => {
                            return Err(e);
                        },
                    }
                }
            },
            XmlStep::End(ns, name) => {
                proof { lemma_next(s, k as int); }
                let kind = classify_ns(ns);
                let local = local_name_of(name.as_str());
                if is(kind, local.as_str(), NsKind::Dav, "propstat") {
                    return Ok((status, p, k + 1));
                }
                k = k + 1;
            },
            XmlStep::Eof => {
                return Err("unexpected EOF in <propstat>".to_owned());
            },
            XmlStep::Failed(m) => {
                return Err(m.clone());
            },
            _ => {
                proof { lemma_next(s, k as int); }
                k = k + 1;
            },
        }
    }
}


/// What has been read of a `response` so far.
pub struct RespV {
    pub href: Option<Seq<char>>,
    pub status: Option<u16>,
    pub props: PropsV,
    pub errors: Seq<u16>,
}

pub open spec fn no_resp() -> RespV {
    RespV { href: None, status: None, props: no_props(), errors: Seq::empty() }
}

/// A `propstat` block's effect: a success status merges its properties, any
/// other status is recorded as an error, no status changes nothing.
pub open spec fn with_propstat(st: RespV, status: Option<u16>, p: PropsV) -> RespV {
    match status {
        Some(c) => if 200 <= c < 300 {
            RespV { props: merged(st.props, p), ..st }
        } else {
            RespV { errors: st.errors.push(c), ..st }
        },
        None => st,
    }
}

/// Reading a `response` whose opening tag was read: the first `href`, the
/// last `status` and the `propstat` blocks.
pub open spec fn response_spec(s: Seq<XmlStepV>, i: int, st: RespV) -> (Result<RespV, Seq<char>>, int)
    decreases s.len() - i,
{
    if i < 0 || i >= s.len() {
        (Err("unexpected EOF in <response>"@), i)
    } else {
        match s[i] {
            XmlStepV::Start(ns, name, _) => if is_el(ns, name, NsKind::Dav, "href"@) {
                let (r, j) = read_token_spec(s, i + 1);
                match r {
                    Err(e) => (Err(e), j),
                    Ok(t) => if i < j <= s.len() {
                        response_spec(s, j, RespV { href: if st.href is None { Some(t) } else { st.href }, ..st })
                    } else {
                        (Ok(st), j)
                    },
                }
            } else if is_el(ns, name, NsKind::Dav, "status"@) {
                let (r, j) = read_token_spec(s, i + 1);
                match r {
                    Err(e) => (Err(e), j),
                    Ok(t) => if i < j <= s.len() { response_spec(s, j, RespV { status: http_status_code(t), ..st }) } else { (Ok(st), j) },
                }
            } else if is_el(ns, name, NsKind::Dav, "propstat"@) {
                let (r, j) = propstat_spec(s, i + 1, None, no_props());
                match r {
                    Err(e) => (Err(e), j),
                    Ok(b) => if i < j <= s.len() { response_spec(s, j, with_propstat(st, b.0, b.1)) } else { (Ok(st), j) },
                }
            } else {
                let (r, j) = skip_spec(s, i + 1, 1);
                match r {
                    Err(e) => (Err(e), j),
                    Ok(_) => if i < j <= s.len() { response_spec(s, j, st) } else { (Ok(st), j) },
                }
            },
            XmlStepV::End(ns, name) => if is_el(ns, name, NsKind::Dav, "response"@) {
                (Ok(st), i + 1)
            } else {
                response_spec(s, i + 1, st)
            },
            XmlStepV::Eof => (Err("unexpected EOF in <response>"@), i + 1),
            XmlStepV::Failed(m) => (Err(m), i + 1),
            _ => response_spec(s, i + 1, st),
        }
    }
}

/// The response that has been read, its href resolved against `base`.
pub open spec fn finished_response(st: RespV, base: Seq<char>) -> Result<DavResponseV, DavParseErrorV> {
    match st.href {
        None => Err(DavParseErrorV::MissingHref),
        Some(raw) => if !crate::dav::href::url_parses(base) {
            Err(DavParseErrorV::Href(raw, HrefErrorV::InvalidBase(base)))
        } else {
            match normalised(base, raw) {
                None => Err(DavParseErrorV::Href(raw, HrefErrorV::InvalidHref(raw, base))),
                Some(h) => Ok(DavResponseV { href: h, status: st.status, props: st.props, propstat_errors: st.errors }),
            }
        },
    }
}

pub open spec fn response_outcome(spec: (Result<RespV, Seq<char>>, int), base: Seq<char>, r: Result<(DavResponse, usize), DavParseError>, i: int, n: int) -> bool {
    match spec.0 {
        Err(e) => r matches Err(x) && x@ == DavParseErrorV::Xml(e),
        Ok(st) => match finished_response(st, base) {
            Err(e) => r matches Err(x) && x@ == e,
            Ok(v) => r matches Ok(p) && p.0@ == v && p.1 == spec.1 && i < p.1 < n,
        },
    }
}

#[verifier::rlimit(40)]
fn parse_response(steps: &Vec<XmlStep>, i: usize, base_url: &str) -> (r: Result<(DavResponse, usize), DavParseError>)
    requires
        well_ended(steps_view(steps@)),
        i < steps@.len(),
    ensures
        response_outcome(response_spec(steps_view(steps@), i as int, no_resp()), base_url@, r, i as int, steps@.len() as int),
{
    let ghost s = steps_view(steps@);
    let n = steps.len();
    let mut href: Option<String> = None;
    let mut status: Option<u16> = None;
    let mut props = ResourceProps::default();
    let mut errors: Vec<u16> = Vec::new();
    let mut k: usize = i;
    let mut end: usize = 0;
    loop
        invariant
            s == steps_view(steps@),
            s.len() == steps@.len(),
            n == s.len(),
            well_ended(s),
            i <= k < s.len(),
            response_spec(s, i as int, no_resp()) == response_spec(s, k as int, RespV { href: opt_string_view(href), status, props: props@, errors: errors@ }),
        ensures
            i < end < s.len(),
            response_spec(s, i as int, no_resp()) == (Ok::<RespV, Seq<char>>(RespV { href: opt_string_view(href), status, props: props@, errors: errors@ }), end as int),
        decreases s.len() - k,
    {
        assert(s[k as int] == steps@[k as int]@);
        match &steps[k] {
            XmlStep::Start(ns, name, _) => {
                proof { lemma_next(s, k as int); }
                let kind = classify_ns(ns);
                let local = local_name_of(name.as_str());
                if is(kind, local.as_str(), NsKind::Dav, "href") {
                    match read_token(steps, k + 1) {
                        Ok((t, j)) => {
                            if href.is_none() {
                                href = Some(t);
                            }
                            k = j;
                        },
                        Err(e) => {
                            return Err(DavParseError::Xml(e));
                        },
                    }
                } else if is(kind, local.as_str(), NsKind::Dav, "status") {
                    match read_token(steps, k + 1) {
                        Ok((t, j)) => {
                            status = parse_http_status(t.as_str());
                            k = j;
                        },
                        Err(e) => {
                            return Err(DavParseError::Xml(e));
                        },
                    }
                } else if is(kind, local.as_str(), NsKind::Dav, "propstat") {
                    match parse_propstat(steps, k + 1) {
                        Ok((bs, bp, j)) => {
                            match bs {
                                Some(c) => {
                                    if 200 <= c && c < 300 {
                                        props = merge_props(props, bp);
                                    } else {
                                        errors.push(c);
                                    }
                                },
                                None => {},
                            }
                            k = j;
                        },
                        Err(e) => {
                            return Err(DavParseError::Xml(e));
                        },
                    }
                } else {
                    match skip_element(steps, k + 1) {
                        Ok(j) => {
                            k = j;
                        },
                        Err(e) => {
                            return Err(DavParseError::Xml(e));
                        },
                    }
                }
            },
            XmlStep::End(ns, name) => {
                proof { lemma_next(s, k as int); }
                let kind = classify_ns(ns);
                let local = local_name_of(name.as_str());
                if is(kind, local.as_str(), NsKind::Dav, "response") {
                    end = k + 1;
                    break;
                }
                k = k + 1;
            },
            XmlStep::Eof => {
                return Err(DavParseError::Xml("unexpected EOF in <response>".to_owned()));
            },
            XmlStep::Failed(m) => {
                return Err(DavParseError::Xml(m.clone()));
            },
            _ => {
                proof { lemma_next(s, k as int); }
                k = k + 1;
            },
        }
    }
    let raw = match href {
        Some(h) => h,
        None => {
            return Err(DavParseError::MissingHref);
        },
    };
    match normalise(base_url, raw.as_str()) {
        Ok(h) => Ok((DavResponse { href: h, status, props, propstat_errors: errors }, end)),
        Err(e) => Err(DavParseError::Href { href: raw, source: e }),
    }
}

pub open spec fn responses_view(v: Seq<DavResponse>) -> Seq<DavResponseV> {
    v.map_values(|d: DavResponse| d@)
}

/// Whether a response with this href is already among `out`.
pub open spec fn has_href(out: Seq<DavResponseV>, h: Seq<char>) -> bool {
    exists|k: int| 0 <= k < out.len() && #[trigger] out[k].href == h
}

/// Reading the `response` elements of a `multistatus` reply from step `i`,
/// keeping the first response for each href.
pub open spec fn multistatus_spec(s: Seq<XmlStepV>, i: int, out: Seq<DavResponseV>, base: Seq<char>) -> Result<Seq<DavResponseV>, DavParseErrorV>
    decreases s.len() - i,
{
    if i < 0 || i >= s.len() {
        Ok(out)
    } else {
        match s[i] {
            XmlStepV::Start(ns, name, _) => if is_el(ns, name, NsKind::Dav, "response"@) {
                let (r, j) = response_spec(s, i + 1, no_resp());
                match r {
                    Err(e) => Err(DavParseErrorV::Xml(e)),
                    Ok(st) => match finished_response(st, base) {
                        Err(e) => Err(e),
                        Ok(d) => if i < j <= s.len() {
                            multistatus_spec(s, j, if has_href(out, d.href) { out } else { out.push(d) }, base)
                        } else {
                            Ok(out)
                        },
                    },
                }
            } else {
                multistatus_spec(s, i + 1, out, base)
            },
            XmlStepV::Eof => Ok(out),
            XmlStepV::Failed(m) => Err(DavParseErrorV::Xml(m)),
            _ => multistatus_spec(s, i + 1, out, base),
        }
    }
}

pub open spec fn multistatus_outcome(spec: Result<Seq<DavResponseV>, DavParseErrorV>, r: Result<Vec<DavResponse>, DavParseError>) -> bool {
    match spec {
        Ok(v) => r matches Ok(x) && responses_view(x@) == v,
        Err(e) => r matches Err(x) && x@ == e,
    }
}

fn contains_href(out: &Vec<DavResponse>, h: &Href) -> (r: bool)
    ensures
        r == has_href(responses_view(out@), h@),
{
    let mut k: usize = 0;
    while k < out.len()
        invariant
            k <= out@.len(),
            forall|j: int| 0 <= j < k ==> #[trigger] responses_view(out@)[j].href != h@,
        decreases out.len() - k,
    {
        if str_eq(out[k].href.as_str(), h.as_str()) {
            assert(responses_view(out@)[k as int].href == h@);
            return true;
        }
        k = k + 1;
    }
    false
}

/// The responses of a `multistatus` reply read from its steps.
pub fn multistatus_from_steps(steps: &Vec<XmlStep>, base_url: &str) -> (r: Result<Vec<DavResponse>, DavParseError>)
    requires
        well_ended(steps_view(steps@)),
    ensures
        multistatus_outcome(multistatus_spec(steps_view(steps@), 0, Seq::empty(), base_url@), r),
{
    let ghost s = steps_view(steps@);
    let n = steps.len();
    let mut out: Vec<DavResponse> = Vec::new();
    let mut k: usize = 0;
    assert(responses_view(out@) =~= Seq::<DavResponseV>::empty());
    loop
        invariant
            s == steps_view(steps@),
            s.len() == steps@.len(),
            n == s.len(),
            well_ended(s),
            k < s.len(),
            multistatus_spec(s, 0, Seq::empty(), base_url@) == multistatus_spec(s, k as int, responses_view(out@), base_url@),
        decreases s.len() - k,
    {
        assert(s[k as int] == steps@[k as int]@);
        match &steps[k] {
            XmlStep::Start(ns, name, _) => {
                proof { lemma_next(s, k as int); }
                let kind = classify_ns(ns);
                let local = local_name_of(name.as_str());
                if is(kind, local.as_str(), NsKind::Dav, "response") {
                    match parse_response(steps, k + 1, base_url) {
                        Ok((d, j)) => {
                            if !contains_href(&out, &d.href) {
                                let ghost before = responses_view(out@);
                                let ghost dv = d@;
                                out.push(d);
                                assert(responses_view(out@) =~= before.push(dv));
                            }
                            k = j;
                        },
                        Err(e) => {
                            return Err(e);
                        },
                    }
                } else {
                    k = k + 1;
                }
            },
            XmlStep::Eof => {
                return Ok(out);
            },
            XmlStep::Failed(m) => {
                return Err(DavParseError::Xml(m.clone()));
            },
            _ => {
                proof { lemma_next(s, k as int); }
                k = k + 1;
            },
        }
    }
}

/// The responses of a `multistatus` reply, each href resolved against
/// `base_url`, the first response kept for each href.
pub fn parse_multistatus(body: &[u8], base_url: &str) -> (r: Result<Vec<DavResponse>, DavParseError>)
    ensures
        multistatus_outcome(multistatus_spec(document_steps(body@, false), 0, Seq::empty(), base_url@), r),
{
    let steps = xml_steps(body, false);
    multistatus_from_steps(&steps, base_url)
}


// ---------------------------------------------------------------------------
// Laws

/// No response in the list shares its href with another.
pub open spec fn distinct_hrefs(v: Seq<DavResponseV>) -> bool {
    forall|a: int, b: int| 0 <= a < b < v.len() ==> v[a].href != v[b].href
}

proof fn lemma_multistatus_distinct(s: Seq<XmlStepV>, i: int, out: Seq<DavResponseV>, base: Seq<char>)
    requires
        distinct_hrefs(out),
    ensures
        multistatus_spec(s, i, out, base) matches Ok(v) ==> distinct_hrefs(v),
    decreases s.len() - i,
{
    if 0 <= i < s.len() {
        match s[i] {
            XmlStepV::Start(ns, name, _) => if is_el(ns, name, NsKind::Dav, "response"@) {
                let (r, j) = response_spec(s, i + 1, no_resp());
                if let Ok(st) = r {
                    if let Ok(d) = finished_response(st, base) {
                        if i < j <= s.len() {
                            let next = if has_href(out, d.href) { out } else { out.push(d) };
                            if !has_href(out, d.href) {
                                assert forall|a: int, b: int| 0 <= a < b < next.len() implies next[a].href != next[b].href by {
                                    if b == out.len() {
                                        assert(out[a].href != d.href);
                                    }
                                }
                            }
                            lemma_multistatus_distinct(s, j, next, base);
                        }
                    }
                }
            } else {
                lemma_multistatus_distinct(s, i + 1, out, base);
            },
            XmlStepV::Eof => {},
            XmlStepV::Failed(_) => {},
            _ => lemma_multistatus_distinct(s, i + 1, out, base),
        }
    }
}

/// A multistatus reply never yields two responses for one href: the first
/// response for an href is kept and later ones are dropped.
pub proof fn law_multistatus_hrefs_distinct(body: Seq<u8>, base: Seq<char>)
    ensures
        multistatus_spec(document_steps(body, false), 0, Seq::empty(), base) matches Ok(v) ==> distinct_hrefs(v),
{
    lemma_multistatus_distinct(document_steps(body, false), 0, Seq::empty(), base);
}

/// Stripping the forbidden control characters leaves none of them.
pub proof fn law_strip_controls_leaves_none(b: Seq<u8>)
    ensures
        forall|i: int| 0 <= i < without_controls(b).len() ==> !illegal_control(#[trigger] without_controls(b)[i]),
    decreases b.len(),
{
    if b.len() > 0 {
        law_strip_controls_leaves_none(b.drop_last());
        let r = without_controls(b.drop_last());
        if !illegal_control(b.last()) {
            assert forall|i: int| 0 <= i < r.push(b.last()).len() implies !illegal_control(#[trigger] r.push(b.last())[i]) by {
                if i < r.len() {
                    assert(r.push(b.last())[i] == r[i]);
                }
            }
        }
    }
}

/// Bytes without forbidden control characters are left as they are.
pub proof fn lemma_clean_unchanged(b: Seq<u8>)
    requires
        forall|i: int| 0 <= i < b.len() ==> !illegal_control(#[trigger] b[i]),
    ensures
        without_controls(b) == b,
    decreases b.len(),
{
    if b.len() > 0 {
        lemma_clean_unchanged(b.drop_last());
        assert(!illegal_control(b[b.len() - 1]));
        assert(b.drop_last().push(b.last()) =~= b);
    }
}

/// Stripping control characters twice strips nothing more than once.
pub proof fn law_strip_controls_idempotent(b: Seq<u8>)
    ensures
        without_controls(without_controls(b)) == without_controls(b),
{
    law_strip_controls_leaves_none(b);
    lemma_clean_unchanged(without_controls(b));
}

/// Merging the properties of a block a second time changes nothing more, and
/// a value that the later block reports wins over the earlier one.
pub proof fn law_merge_later_wins(t: PropsV, s: PropsV)
    ensures
        merged(merged(t, s), s) == merged(t, s),
        s.etag is Some ==> merged(t, s).etag == s.etag,
        s.etag is None ==> merged(t, s).etag == t.etag,
        s.displayname is Some ==> merged(t, s).displayname == s.displayname,
        s.displayname is None ==> merged(t, s).displayname == t.displayname,
{
}

/// A DAV `getlastmodified` property is never skipped: it sets the
/// last-modified stamp to its text, trimmed, leaves every other property as
/// it was, and reads on to where that text ends; a read error is passed on.
pub proof fn law_last_modified_is_kept(s: Seq<XmlStepV>, i: int, p: PropsV, ns: Option<Seq<char>>, name: Seq<char>)
    requires
        ns_kind(ns) == NsKind::Dav,
        eq_ignore_case(local_name(name), "getlastmodified"@),
    ensures
        prop_element_spec(s, i, p, ns, name).1 == read_token_spec(s, i).1,
        match read_token_spec(s, i).0 {
            Ok(t) => prop_element_spec(s, i, p, ns, name).0 == Ok::<PropsV, Seq<char>>(
                PropsV { last_modified: Some(t), ..p },
            ),
            Err(e) => prop_element_spec(s, i, p, ns, name).0 == Err::<PropsV, Seq<char>>(e),
        },
{
    reveal_strlit("getlastmodified");
    reveal_strlit("resourcetype");
    reveal_strlit("displayname");
    reveal_strlit("current-user-principal");
    reveal_strlit("getetag");
    reveal_strlit("getcontenttype");
    assert("getlastmodified"@.len() == 15);
    assert("resourcetype"@.len() == 12);
    assert("displayname"@.len() == 11);
    assert("current-user-principal"@.len() == 22);
    assert("getetag"@.len() == 7);
    assert("getcontenttype"@.len() == 14);
    let l = local_name(name);
    assert(lower_seq(l).len() == l.len());
    assert(lower_seq("getlastmodified"@).len() == 15);
    assert(lower_seq("resourcetype"@).len() == 12);
    assert(lower_seq("displayname"@).len() == 11);
    assert(lower_seq("current-user-principal"@).len() == 22);
    assert(lower_seq("getetag"@).len() == 7);
    assert(lower_seq("getcontenttype"@).len() == 14);
}

/// Each property element that the server reports with a text value is kept:
/// where its text reads, it sets that property from the text (trimmed; a
/// length or an order as its number) and leaves the others as they were; the
/// entity tag is set where its text is not empty; the calendar and address
/// data are kept as written. Where the text does not read, its error is passed
/// on.
pub proof fn law_text_properties_are_kept(s: Seq<XmlStepV>, i: int, p: PropsV, ns: Option<Seq<char>>, name: Seq<char>)
    ensures
        ({
            let out = prop_element_spec(s, i, p, ns, name);
            let t = read_token_spec(s, i).0->Ok_0;
            let j = read_token_spec(s, i).1;
            read_token_spec(s, i).0 is Ok ==> {
            &&& is_el(ns, name, NsKind::Dav, "displayname"@) ==> out == (Ok::<PropsV, Seq<char>>(PropsV { displayname: Some(t), ..p }), j)
            &&& is_el(ns, name, NsKind::Dav, "getcontenttype"@) ==> out == (Ok::<PropsV, Seq<char>>(PropsV { content_type: Some(t), ..p }), j)
            &&& is_el(ns, name, NsKind::Dav, "creationdate"@) ==> out == (Ok::<PropsV, Seq<char>>(PropsV { creation_date: Some(t), ..p }), j)
            &&& is_el(ns, name, NsKind::Dav, "getcontentlength"@) ==> out == (Ok::<PropsV, Seq<char>>(PropsV { content_length: u64_of(t), ..p }), j)
            &&& is_el(ns, name, NsKind::Caldav, "calendar-description"@) ==> out == (Ok::<PropsV, Seq<char>>(PropsV { calendar_description: Some(t), ..p }), j)
            &&& is_el(ns, name, NsKind::Carddav, "addressbook-description"@) ==> out == (Ok::<PropsV, Seq<char>>(PropsV { addressbook_description: Some(t), ..p }), j)
            &&& is_el(ns, name, NsKind::Apple, "calendar-color"@) ==> out == (Ok::<PropsV, Seq<char>>(PropsV { calendar_color: Some(t), ..p }), j)
            &&& is_el(ns, name, NsKind::Apple, "calendar-order"@) ==> out == (Ok::<PropsV, Seq<char>>(PropsV { calendar_order: i64_of(t), ..p }), j)
            &&& is_el(ns, name, NsKind::Caldav, "calendar-timezone"@) ==> out == (Ok::<PropsV, Seq<char>>(PropsV { calendar_timezone: Some(t), ..p }), j)
            &&& is_el(ns, name, NsKind::Dav, "getetag"@) ==> out == (Ok::<PropsV, Seq<char>>(if t.len() > 0 { PropsV { etag: Some(t), ..p } } else { p }), j)
            }
        }),
        ({
            let out = prop_element_spec(s, i, p, ns, name);
            let w = read_text_spec(s, i, Seq::empty());
            w.0 is Ok ==> {
            &&& is_el(ns, name, NsKind::Caldav, "calendar-data"@) ==> out == (Ok::<PropsV, Seq<char>>(PropsV { calendar_data: Some(w.0->Ok_0), ..p }), w.1)
            &&& is_el(ns, name, NsKind::Carddav, "address-data"@) ==> out == (Ok::<PropsV, Seq<char>>(PropsV { address_data: Some(w.0->Ok_0), ..p }), w.1)
            }
        }),
{
    reveal_strlit("resourcetype");
    reveal_strlit("displayname");
    reveal_strlit("current-user-principal");
    reveal_strlit("getetag");
    reveal_strlit("getcontenttype");
    reveal_strlit("getlastmodified");
    reveal_strlit("creationdate");
    reveal_strlit("getcontentlength");
    reveal_strlit("calendar-home-set");
    reveal_strlit("calendar-description");
    reveal_strlit("calendar-timezone");
    reveal_strlit("addressbook-home-set");
    reveal_strlit("addressbook-description");
    reveal_strlit("calendar-color");
    reveal_strlit("calendar-order");
    reveal_strlit("supported-calendar-component-set");
    reveal_strlit("calendar-data");
    reveal_strlit("address-data");
    assert(lower_seq("resourcetype"@).len() == 12);
    assert(lower_seq("displayname"@).len() == 11);
    assert(lower_seq("current-user-principal"@).len() == 22);
    assert(lower_seq("getetag"@).len() == 7);
    assert(lower_seq("getcontenttype"@).len() == 14);
    assert(lower_seq("getlastmodified"@).len() == 15);
    assert(lower_seq("creationdate"@).len() == 12);
    assert(lower_seq("getcontentlength"@).len() == 16);
    assert(lower_seq("calendar-home-set"@).len() == 17);
    assert(lower_seq("calendar-description"@).len() == 20);
    assert(lower_seq("calendar-timezone"@).len() == 17);
    assert(lower_seq("addressbook-home-set"@).len() == 20);
    assert(lower_seq("addressbook-description"@).len() == 23);
    assert(lower_seq("calendar-color"@).len() == 14);
    assert(lower_seq("calendar-order"@).len() == 14);
    assert(lower_seq("supported-calendar-component-set"@).len() == 32);
    assert(lower_seq("calendar-data"@).len() == 13);
    assert(lower_seq("address-data"@).len() == 12);
    let l = local_name(name);
    assert(lower_seq(l).len() == l.len());
    assert(lower_seq("resourcetype"@)[0] != lower_seq("creationdate"@)[0]);
    assert(lower_seq("calendar-home-set"@)[9] != lower_seq("calendar-timezone"@)[9]);
    assert(lower_seq("calendar-color"@)[9] != lower_seq("calendar-order"@)[9]);
}
/// A `propstat` block with a success (2xx) status never drops a property it
/// reports: each value it carries replaces the response's earlier one, each
/// flag it sets stays set, and what it does not report stays as it was; the
/// errors are untouched. A block with any other status leaves the properties
/// as they were and records its code as an error.
pub proof fn law_success_propstat_keeps_its_properties(st: RespV, c: u16, p: PropsV)
    ensures
        ({
            let after = with_propstat(st, Some(c), p);
            200 <= c < 300 ==> {
            &&& p.displayname is Some ==> after.props.displayname == p.displayname
            &&& p.displayname is None ==> after.props.displayname == st.props.displayname
            &&& p.current_user_principal is Some ==> after.props.current_user_principal == p.current_user_principal
            &&& p.current_user_principal is None ==> after.props.current_user_principal == st.props.current_user_principal
            &&& p.calendar_home_set is Some ==> after.props.calendar_home_set == p.calendar_home_set
            &&& p.calendar_home_set is None ==> after.props.calendar_home_set == st.props.calendar_home_set
            &&& p.addressbook_home_set is Some ==> after.props.addressbook_home_set == p.addressbook_home_set
            &&& p.addressbook_home_set is None ==> after.props.addressbook_home_set == st.props.addressbook_home_set
            &&& p.etag is Some ==> after.props.etag == p.etag
            &&& p.etag is None ==> after.props.etag == st.props.etag
            &&& p.content_type is Some ==> after.props.content_type == p.content_type
            &&& p.content_type is None ==> after.props.content_type == st.props.content_type
            &&& p.last_modified is Some ==> after.props.last_modified == p.last_modified
            &&& p.last_modified is None ==> after.props.last_modified == st.props.last_modified
            &&& p.creation_date is Some ==> after.props.creation_date == p.creation_date
            &&& p.creation_date is None ==> after.props.creation_date == st.props.creation_date
            &&& p.content_length is Some ==> after.props.content_length == p.content_length
            &&& p.content_length is None ==> after.props.content_length == st.props.content_length
            &&& p.calendar_description is Some ==> after.props.calendar_description == p.calendar_description
            &&& p.calendar_description is None ==> after.props.calendar_description == st.props.calendar_description
            &&& p.addressbook_description is Some ==> after.props.addressbook_description == p.addressbook_description
            &&& p.addressbook_description is None ==> after.props.addressbook_description == st.props.addressbook_description
            &&& p.calendar_color is Some ==> after.props.calendar_color == p.calendar_color
            &&& p.calendar_color is None ==> after.props.calendar_color == st.props.calendar_color
            &&& p.calendar_order is Some ==> after.props.calendar_order == p.calendar_order
            &&& p.calendar_order is None ==> after.props.calendar_order == st.props.calendar_order
            &&& p.calendar_timezone is Some ==> after.props.calendar_timezone == p.calendar_timezone
            &&& p.calendar_timezone is None ==> after.props.calendar_timezone == st.props.calendar_timezone
            &&& p.calendar_data is Some ==> after.props.calendar_data == p.calendar_data
            &&& p.calendar_data is None ==> after.props.calendar_data == st.props.calendar_data
            &&& p.address_data is Some ==> after.props.address_data == p.address_data
            &&& p.address_data is None ==> after.props.address_data == st.props.address_data
            &&& (p.is_collection ==> after.props.is_collection)
            &&& (p.is_calendar ==> after.props.is_calendar)
            &&& (p.is_addressbook ==> after.props.is_addressbook)
            &&& (p.supported_components.len() > 0 ==> after.props.supported_components == p.supported_components)
            &&& after.errors == st.errors
            &&& after.href == st.href
            }
        }),
        !(200 <= c < 300) ==> with_propstat(st, Some(c), p) == (RespV { errors: st.errors.push(c), ..st }),
{
}
} // verus!
