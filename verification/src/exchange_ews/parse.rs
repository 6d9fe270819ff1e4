//! Reading EWS replies.
//!
//! A reply is read into the steps of an XML pull parser; each reader here
//! walks those steps and has a specification over them that its contract
//! states it computes.

use vstd::prelude::*;
use vstd::utf8::encode_utf8;
use crate::exchange_ews::error::EwsError;
use crate::exchange_ews::soap::{NS_MESSAGES, NS_TYPES};
use crate::exchange_ews::types::{is_white_space, is_ws, item_type_of, known_code, CalendarItemType, FolderId, ItemId, trim_chars, trimmed, version_of_build, wire_name, ResponseCode, ServerVersion};
use crate::text::{append_markup_escaped, bytes_eq_ignore_case, bytes_equal_ignore_case, eq_ignore_case, lower_seq, markup_escape, parse_unsigned, str_eq, str_eq_ignore_case, unsigned_value};
use crate::xml_stream::{
    document_steps, is_terminal, local_name, local_name_of, normalized_or_raw, opt_string_view,
    steps_view, tag_attributes, value_or_raw, well_ended, wellformed_attributes, xml_attribute_list,
    xml_steps, XmlStep, XmlStepV,
};

verus! {

/// The namespaces that EWS replies use.
#[derive(Debug, Clone, Copy, PartialEq, Eq, Structural)]
pub enum Ns {
    Messages,
    Types,
    Other,
}

pub open spec fn ews_ns(ns: Option<Seq<char>>) -> Ns {
    match ns {
        Some(n) => if n == NS_MESSAGES@ {
            Ns::Messages
        } else if n == NS_TYPES@ {
            Ns::Types
        } else {
            Ns::Other
        },
        None => Ns::Other,
    }
}

fn classify(ns: &Option<String>) -> (r: Ns)
    ensures
        r == ews_ns(opt_string_view(*ns)),
{
    match ns {
        Some(n) => if str_eq(n.as_str(), NS_MESSAGES) {
            Ns::Messages
        } else if str_eq(n.as_str(), NS_TYPES) {
            Ns::Types
        } else {
            Ns::Other
        },
        None => Ns::Other,
    }
}

/// A qualified name whose local part is `target`, in any case.
pub open spec fn named(name: Seq<char>, target: Seq<char>) -> bool {
    eq_ignore_case(local_name(name), target)
}

pub open spec fn well_read(s: Seq<XmlStepV>, i: int) -> bool {
    well_ended(s) && 0 <= i < s.len()
}

proof fn lemma_next(s: Seq<XmlStepV>, k: int)
    requires
        well_ended(s),
        0 <= k < s.len(),
        !is_terminal(s[k]),
    ensures
        k + 1 < s.len(),
{
    if k == s.len() - 1 {
        assert(is_terminal(s.last()));
    }
}

/// `true` or `1`, around white space.
pub open spec fn truthy(t: Seq<char>) -> bool {
    trimmed(t) == "true"@ || trimmed(t) == "1"@
}

fn is_truthy(t: &str) -> (r: bool)
    ensures
        r == truthy(t@),
{
    let w = trim_chars(t);
    str_eq(w.as_str(), "true") || str_eq(w.as_str(), "1")
}

pub open spec fn u32_of(t: Seq<char>) -> Option<u32> {
    match unsigned_value(t, 0xffff_ffff) {
        Some(v) => Some(v as u32),
        None => None,
    }
}

fn parse_u32(t: &str) -> (r: Option<u32>)
    ensures
        r == u32_of(t@),
{
    match parse_unsigned(t, 0xffff_ffff) {
        Some(v) => Some(v as u32),
        None => None,
    }
}

pub open spec fn u64_of(t: Seq<char>) -> Option<u64> {
    match unsigned_value(t, 0xffff_ffff_ffff_ffff) {
        Some(v) => Some(v as u64),
        None => None,
    }
}

/// The element names of EWS items.
pub open spec fn item_element(l: Seq<char>) -> bool {
    ||| eq_ignore_case(l, "message"@)
    ||| eq_ignore_case(l, "calendaritem"@)
    ||| eq_ignore_case(l, "contact"@)
    ||| eq_ignore_case(l, "meetingrequest"@)
    ||| eq_ignore_case(l, "meetingresponse"@)
    ||| eq_ignore_case(l, "meetingmessage"@)
    ||| eq_ignore_case(l, "meetingcancellation"@)
    ||| eq_ignore_case(l, "item"@)
}

fn is_item_element(l: &str) -> (r: bool)
    ensures
        r == item_element(l@),
{
    str_eq_ignore_case(l, "message") || str_eq_ignore_case(l, "calendaritem") || str_eq_ignore_case(l, "contact")
        || str_eq_ignore_case(l, "meetingrequest") || str_eq_ignore_case(l, "meetingresponse")
        || str_eq_ignore_case(l, "meetingmessage") || str_eq_ignore_case(l, "meetingcancellation")
        || str_eq_ignore_case(l, "item")
}

/// The attributes of a tag as `(key, raw value)` pairs.
pub open spec fn attrs_of(raw: Seq<char>) -> Seq<(Seq<char>, Seq<char>)> {
    wellformed_attributes(xml_attribute_list(raw))
}

/// The value of the first attribute whose key's local part is `name` (any
/// case), normalised where possible.
pub open spec fn attr_in(l: Seq<(Seq<char>, Seq<char>)>, name: Seq<char>) -> Option<Seq<char>>
    decreases l.len(),
{
    if l.len() == 0 {
        None
    } else if named(l[0].0, name) {
        Some(value_or_raw(l[0].1))
    } else {
        attr_in(l.drop_first(), name)
    }
}

fn attr_value(attrs: &str, name: &str) -> (r: Option<String>)
    ensures
        opt_string_view(r) == attr_in(attrs_of(attrs@), name@),
{
    let list = tag_attributes(attrs);
    let ghost l = attrs_of(attrs@);
    let mut i: usize = 0;
    assert(l.skip(0) =~= l);
    while i < list.len()
        invariant
            i <= list@.len(),
            l == attrs_of(attrs@),
            list@.map_values(|p: (String, String)| (p.0@, p.1@)) == l,
            attr_in(l, name@) == attr_in(l.skip(i as int), name@),
        decreases list.len() - i,
    {
        assert(l.skip(i as int)[0] == l[i as int]);
        assert(l.skip(i as int).drop_first() =~= l.skip(i + 1));
        assert(l[i as int] == (list@[i as int].0@, list@[i as int].1@));
        let key_local = local_name_of(list[i].0.as_str());
        if str_eq_ignore_case(key_local.as_str(), name) {
            return Some(normalized_or_raw(list[i].0.as_str(), list[i].1.as_str()));
        }
        i = i + 1;
    }
    None
}

/// The `Id` and `ChangeKey` attributes of a tag, the last of each kept,
/// starting from `id` and `ck`.
pub open spec fn id_attrs(l: Seq<(Seq<char>, Seq<char>)>, id: Seq<char>, ck: Seq<char>) -> (Seq<char>, Seq<char>)
    decreases l.len(),
{
    if l.len() == 0 {
        (id, ck)
    } else {
        let v = value_or_raw(l[0].1);
        if named(l[0].0, "Id"@) {
            id_attrs(l.drop_first(), v, ck)
        } else if named(l[0].0, "ChangeKey"@) {
            id_attrs(l.drop_first(), id, v)
        } else {
            id_attrs(l.drop_first(), id, ck)
        }
    }
}

fn capture_id_attrs(attrs: &str, id: String, ck: String) -> (r: (String, String))
    ensures
        (r.0@, r.1@) == id_attrs(attrs_of(attrs@), id@, ck@),
{
    let list = tag_attributes(attrs);
    let ghost l = attrs_of(attrs@);
    let mut id = id;
    let mut ck = ck;
    let mut i: usize = 0;
    assert(l.skip(0) =~= l);
    let ghost goal = id_attrs(l, id@, ck@);
    while i < list.len()
        invariant
            i <= list@.len(),
            l == attrs_of(attrs@),
            list@.map_values(|p: (String, String)| (p.0@, p.1@)) == l,
            goal == id_attrs(l.skip(i as int), id@, ck@),
        decreases list.len() - i,
    {
        assert(l.skip(i as int)[0] == l[i as int]);
        assert(l.skip(i as int).drop_first() =~= l.skip(i + 1));
        assert(l[i as int] == (list@[i as int].0@, list@[i as int].1@));
        let key_local = local_name_of(list[i].0.as_str());
        let v = normalized_or_raw(list[i].0.as_str(), list[i].1.as_str());
        if str_eq_ignore_case(key_local.as_str(), "Id") {
            id = v;
        } else if str_eq_ignore_case(key_local.as_str(), "ChangeKey") {
            ck = v;
        }
        i = i + 1;
    }
    assert(l.skip(i as int) =~= Seq::<(Seq<char>, Seq<char>)>::empty());
    (id, ck)
}

// ---------------------------------------------------------------------------
// The envelope

/// The `ServerVersionInfo` header of a response.
#[derive(Debug, Clone, Default)]
pub struct ServerVersionInfo {
    pub major_version: Option<u32>,
    pub minor_version: Option<u32>,
    pub major_build: Option<u32>,
    pub minor_build: Option<u32>,
    pub version: Option<String>,
}

pub struct VersionV {
    pub major_version: Option<u32>,
    pub minor_version: Option<u32>,
    pub major_build: Option<u32>,
    pub minor_build: Option<u32>,
    pub version: Option<Seq<char>>,
}

impl View for ServerVersionInfo {
    type V = VersionV;

    open spec fn view(&self) -> VersionV {
        VersionV {
            major_version: self.major_version,
            minor_version: self.minor_version,
            major_build: self.major_build,
            minor_build: self.minor_build,
            version: opt_string_view(self.version),
        }
    }
}

pub open spec fn no_version() -> VersionV {
    VersionV { major_version: None, minor_version: None, major_build: None, minor_build: None, version: None }
}

impl ServerVersionInfo {
    /// No version announced.
    pub fn empty() -> (r: ServerVersionInfo)
        ensures
            r@ == no_version(),
    {
        ServerVersionInfo { major_version: None, minor_version: None, major_build: None, minor_build: None, version: None }
    }

    /// The schema version the server announces, when it gives both parts of
    /// its version number.
    pub fn to_server_version(&self) -> (r: Option<ServerVersion>)
        ensures
            r == match (self.major_version, self.minor_version) {
                (Some(maj), Some(min)) => Some(version_of_build(maj, min)),
                _ => None,
            },
    {
        match (self.major_version, self.minor_version) {
            (Some(maj), Some(min)) => Some(ServerVersion::from_build(maj, min)),
            _ => None,
        }
    }
}

/// The version numbers that the attributes of `ServerVersionInfo` give (raw
/// values; numbers read as `u32`).
pub open spec fn version_attrs(l: Seq<(Seq<char>, Seq<char>)>, v: VersionV) -> VersionV
    decreases l.len(),
{
    if l.len() == 0 {
        v
    } else {
        let (k, x) = l[0];
        let w = if named(k, "MajorVersion"@) {
            VersionV { major_version: u32_of(x), ..v }
        } else if named(k, "MinorVersion"@) {
            VersionV { minor_version: u32_of(x), ..v }
        } else if named(k, "MajorBuildNumber"@) {
            VersionV { major_build: u32_of(x), ..v }
        } else if named(k, "MinorBuildNumber"@) {
            VersionV { minor_build: u32_of(x), ..v }
        } else if named(k, "Version"@) {
            VersionV { version: Some(x), ..v }
        } else {
            v
        };
        version_attrs(l.drop_first(), w)
    }
}

fn read_version_attrs(attrs: &str, out: ServerVersionInfo) -> (r: ServerVersionInfo)
    ensures
        r@ == version_attrs(attrs_of(attrs@), out@),
{
    let list = tag_attributes(attrs);
    let ghost l = attrs_of(attrs@);
    let mut v = out;
    let mut i: usize = 0;
    assert(l.skip(0) =~= l);
    let ghost goal = version_attrs(l, v@);
    while i < list.len()
        invariant
            i <= list@.len(),
            l == attrs_of(attrs@),
            list@.map_values(|p: (String, String)| (p.0@, p.1@)) == l,
            goal == version_attrs(l.skip(i as int), v@),
        decreases list.len() - i,
    {
        assert(l.skip(i as int)[0] == l[i as int]);
        assert(l.skip(i as int).drop_first() =~= l.skip(i + 1));
        assert(l[i as int] == (list@[i as int].0@, list@[i as int].1@));
        let k = local_name_of(list[i].0.as_str());
        let x = list[i].1.as_str();
        if str_eq_ignore_case(k.as_str(), "MajorVersion") {
            v.major_version = parse_u32(x);
        } else if str_eq_ignore_case(k.as_str(), "MinorVersion") {
            v.minor_version = parse_u32(x);
        } else if str_eq_ignore_case(k.as_str(), "MajorBuildNumber") {
            v.major_build = parse_u32(x);
        } else if str_eq_ignore_case(k.as_str(), "MinorBuildNumber") {
            v.minor_build = parse_u32(x);
        } else if str_eq_ignore_case(k.as_str(), "Version") {
            v.version = Some(x.to_owned());
        }
        i = i + 1;
    }
    assert(l.skip(i as int) =~= Seq::<(Seq<char>, Seq<char>)>::empty());
    v
}

/// A SOAP fault.
#[derive(Debug, Clone)]
pub struct SoapFault {
    pub fault_code: String,
    pub fault_string: String,
    pub response_code: ResponseCode,
    pub back_off_ms: Option<u64>,
}

/// What the envelope of a reply holds: a fault, or a body.
#[derive(Debug, Clone)]
pub enum EnvelopeKind {
    Fault { version: ServerVersionInfo, fault: SoapFault },
    Body { version: ServerVersionInfo },
}

/// Where the text of the element being read goes.
#[derive(Debug, Clone, Copy, PartialEq, Eq, Structural)]
pub enum FaultTarget {
    Code,
    Text,
    ResponseCode,
    Value,
}

/// What has been read of a fault.
pub struct FaultV {
    pub fault_code: Seq<char>,
    pub fault_string: Seq<char>,
    pub code: Seq<char>,
    pub back_off: Option<u64>,
    pub target: Option<FaultTarget>,
    pub value_name: Option<Seq<char>>,
    pub depth: nat,
}

pub open spec fn fault_start() -> FaultV {
    FaultV { fault_code: Seq::empty(), fault_string: Seq::empty(), code: Seq::empty(), back_off: None, target: None, value_name: None, depth: 1 }
}

/// The effect of one step inside a fault (not the end of the document, not a
/// failure, not the closing tag of the fault).
pub open spec fn fault_step(f: FaultV, e: XmlStepV) -> FaultV {
    match e {
        XmlStepV::Start(ns, name, attrs) => {
            let f = FaultV { depth: f.depth + 1, ..f };
            if named(name, "faultcode"@) {
                FaultV { target: Some(FaultTarget::Code), ..f }
            } else if named(name, "faultstring"@) {
                FaultV { target: Some(FaultTarget::Text), ..f }
            } else if named(name, "ResponseCode"@) {
                FaultV { target: Some(FaultTarget::ResponseCode), ..f }
            } else if named(name, "Value"@) && ews_ns(ns) == Ns::Types {
                FaultV { target: Some(FaultTarget::Value), value_name: attr_in(attrs_of(attrs), "Name"@), ..f }
            } else {
                FaultV { target: None, ..f }
            }
        },
        XmlStepV::Empty(ns, name, attrs) => if ews_ns(ns) == Ns::Types && named(name, "Value"@) {
            FaultV { value_name: attr_in(attrs_of(attrs), "Name"@), ..f }
        } else {
            f
        },
        XmlStepV::End(_, _) => FaultV { depth: (f.depth - 1) as nat, target: None, ..f },
        XmlStepV::Text(t) => match f.target {
            Some(FaultTarget::Code) => FaultV { fault_code: t, ..f },
            Some(FaultTarget::Text) => FaultV { fault_string: t, ..f },
            Some(FaultTarget::ResponseCode) => FaultV { code: t, ..f },
            Some(FaultTarget::Value) => if f.value_name == Some("BackOffMilliseconds"@) {
                FaultV { back_off: u64_of(trimmed(t)), ..f }
            } else {
                f
            },
            None => f,
        },
        XmlStepV::CData(t) => if f.target == Some(FaultTarget::Text) {
            FaultV { fault_string: t, ..f }
        } else {
            f
        },
        _ => f,
    }
}

/// Reading a fault whose opening tag was read, up to its closing tag or the
/// end of the document.
pub open spec fn fault_spec(s: Seq<XmlStepV>, i: int, f: FaultV) -> Result<FaultV, Seq<char>>
    decreases s.len() - i,
{
    if i < 0 || i >= s.len() {
        Ok(f)
    } else {
        match s[i] {
            XmlStepV::Eof => Ok(f),
            XmlStepV::Failed(m) => Err(m),
            XmlStepV::End(_, _) => if f.depth <= 1 {
                Ok(fault_step(f, s[i]))
            } else {
                fault_spec(s, i + 1, fault_step(f, s[i]))
            },
            _ => fault_spec(s, i + 1, fault_step(f, s[i])),
        }
    }
}

/// A response code read from `text`, with the back-off of a busy server.
pub open spec fn code_matches(c: ResponseCode, text: Seq<char>, back_off: Option<u64>) -> bool {
    &&& wire_name(&c) == text
    &&& (c is Other) == !known_code(text)
    &&& c matches ResponseCode::ServerBusy { back_off_ms } ==> back_off_ms == back_off
}

/// The fault that has been read.
pub open spec fn fault_matches(x: SoapFault, f: FaultV) -> bool {
    &&& x.fault_code@ == f.fault_code
    &&& x.fault_string@ == f.fault_string
    &&& code_matches(x.response_code, f.code, f.back_off)
    &&& x.back_off_ms == f.back_off
}

struct FaultState {
    fault_code: String,
    fault_string: String,
    code: String,
    back_off: Option<u64>,
    target: Option<FaultTarget>,
    value_name: Option<String>,
    depth: usize,
}

impl View for FaultState {
    type V = FaultV;

    closed spec fn view(&self) -> FaultV {
        FaultV {
            fault_code: self.fault_code@,
            fault_string: self.fault_string@,
            code: self.code@,
            back_off: self.back_off,
            target: self.target,
            value_name: opt_string_view(self.value_name),
            depth: self.depth as nat,
        }
    }
}

fn apply_fault_step(f: FaultState, e: &XmlStep) -> (r: FaultState)
    requires
        f.depth < usize::MAX,
        e@ is End ==> f.depth >= 1,
    ensures
        r@ == fault_step(f@, e@),
        r.depth <= f.depth + 1,
{
    let mut f = f;
    match e {
        XmlStep::Start(ns, name, attrs) => {
            f.depth = f.depth + 1;
            let l = local_name_of(name.as_str());
            if str_eq_ignore_case(l.as_str(), "faultcode") {
                f.target = Some(FaultTarget::Code);
            } else if str_eq_ignore_case(l.as_str(), "faultstring") {
                f.target = Some(FaultTarget::Text);
            } else if str_eq_ignore_case(l.as_str(), "ResponseCode") {
                f.target = Some(FaultTarget::ResponseCode);
            } else if str_eq_ignore_case(l.as_str(), "Value") && classify(ns) == Ns::Types {
                f.value_name = attr_value(attrs.as_str(), "Name");
                f.target = Some(FaultTarget::Value);
            } else {
                f.target = None;
            }
        },
        XmlStep::Empty(ns, name, attrs) => {
            let l = local_name_of(name.as_str());
            if classify(ns) == Ns::Types && str_eq_ignore_case(l.as_str(), "Value") {
                f.value_name = attr_value(attrs.as_str(), "Name");
            }
        },
        XmlStep::End(_, _) => {
            f.depth = f.depth - 1;
            f.target = None;
        },
        XmlStep::Text(t) => {
            match f.target {
                Some(FaultTarget::Code) => {
                    f.fault_code = t.clone();
                },
                Some(FaultTarget::Text) => {
                    f.fault_string = t.clone();
                },
                Some(FaultTarget::ResponseCode) => {
                    f.code = t.clone();
                },
                Some(FaultTarget::Value) => {
                    let is_backoff = match &f.value_name {
                        Some(n) => str_eq(n.as_str(), "BackOffMilliseconds"),
                        None => false,
                    };
                    if is_backoff {
                        let w = trim_chars(t.as_str());
                        f.back_off = parse_unsigned(w.as_str(), 0xffff_ffff_ffff_ffff);
                    }
                },
                None => {},
            }
        },
        XmlStep::CData(t) => {
            if f.target == Some(FaultTarget::Text) {
                f.fault_string = t.clone();
            }
        },
        _ => {},
    }
    f
}

/// The fault read from the steps from `i`.
fn parse_fault(steps: &Vec<XmlStep>, i: usize) -> (r: Result<SoapFault, String>)
    requires
        well_read(steps_view(steps@), i as int),
    ensures
        match fault_spec(steps_view(steps@), i as int, fault_start()) {
            Ok(f) => r matches Ok(x) && fault_matches(x, f),
            Err(e) => r matches Err(m) && m@ == e,
        },
{
    let ghost s = steps_view(steps@);
    let n = steps.len();
    let mut f = FaultState {
        fault_code: String::new(),
        fault_string: String::new(),
        code: String::new(),
        back_off: None,
        target: None,
        value_name: None,
        depth: 1,
    };
    let mut k: usize = i;
    loop
        invariant_except_break
            1 <= f.depth <= k - i + 1,
            fault_spec(s, i as int, fault_start()) == fault_spec(s, k as int, f@),
        invariant
            s == steps_view(steps@),
            s.len() == steps@.len(),
            n == s.len(),
            well_ended(s),
            i <= k < s.len(),
        ensures
            fault_spec(s, i as int, fault_start()) == Ok::<FaultV, Seq<char>>(f@),
        decreases s.len() - k,
    {
        assert(s[k as int] == steps@[k as int]@);
        match &steps[k] {
            XmlStep::Eof => {
                break;
            },
            XmlStep::Failed(m) => {
                return Err(m.clone());
            },
            XmlStep::End(_, _) => {
                proof { lemma_next(s, k as int); }
                let last = f.depth <= 1;
                f = apply_fault_step(f, &steps[k]);
                if last {
                    break;
                }
                k = k + 1;
            },
            _ => {
                proof { lemma_next(s, k as int); }
                f = apply_fault_step(f, &steps[k]);
                k = k + 1;
            },
        }
    }
    let code = ResponseCode::parse(f.code.as_str());
    let response_code = match code {
        ResponseCode::ServerBusy { .. } => ResponseCode::ServerBusy { back_off_ms: f.back_off },
        other => other,
    };
    Ok(SoapFault { fault_code: f.fault_code, fault_string: f.fault_string, response_code, back_off_ms: f.back_off })
}


/// The errors that reading a reply gives.
pub enum EwsErrV {
    Xml(Seq<char>),
    Malformed(Seq<char>),
}

pub open spec fn err_matches(x: EwsError, e: EwsErrV) -> bool {
    match e {
        EwsErrV::Xml(m) => x matches EwsError::Xml(t) && t@ == m,
        EwsErrV::Malformed(m) => x matches EwsError::Malformed(t) && t@ == m,
    }
}

pub enum EnvV {
    Fault(VersionV, FaultV),
    Body(VersionV),
}

pub open spec fn envelope_matches(x: EnvelopeKind, e: EnvV) -> bool {
    match e {
        EnvV::Fault(v, f) => x matches EnvelopeKind::Fault { version, fault } && version@ == v && fault_matches(fault, f),
        EnvV::Body(v) => x matches EnvelopeKind::Body { version } && version@ == v,
    }
}

/// How reading the envelope ends at the end of the document.
pub open spec fn envelope_end(v: VersionV, seen_body: bool) -> Result<EnvV, EwsErrV> {
    if seen_body {
        Ok(EnvV::Body(v))
    } else {
        Err(EwsErrV::Malformed("envelope had no soap:Body"@))
    }
}

/// What a tag of the envelope does: `None` for the start of a fault,
/// otherwise the version and whether the body was seen.
pub open spec fn envelope_tag(ns: Option<Seq<char>>, name: Seq<char>, attrs: Seq<char>, v: VersionV, seen_body: bool) -> Option<(VersionV, bool)> {
    if ews_ns(ns) == Ns::Types && named(name, "ServerVersionInfo"@) {
        Some((version_attrs(attrs_of(attrs), v), seen_body))
    } else if named(name, "Fault"@) {
        None
    } else if named(name, "Body"@) {
        Some((v, true))
    } else {
        Some((v, seen_body))
    }
}

/// Reading the envelope from step `i`: the version header, then a fault (read
/// to its end) or the body.
pub open spec fn envelope_spec(s: Seq<XmlStepV>, i: int, v: VersionV, seen_body: bool) -> Result<EnvV, EwsErrV>
    decreases s.len() - i,
{
    if i < 0 || i >= s.len() {
        envelope_end(v, seen_body)
    } else {
        match s[i] {
            XmlStepV::Start(ns, name, attrs) => match envelope_tag(ns, name, attrs, v, seen_body) {
                Some((w, b)) => envelope_spec(s, i + 1, w, b),
                None => match fault_spec(s, i + 1, fault_start()) {
                    Ok(f) => Ok(EnvV::Fault(v, f)),
                    Err(e) => Err(EwsErrV::Xml(e)),
                },
            },
            XmlStepV::Empty(ns, name, attrs) => match envelope_tag(ns, name, attrs, v, seen_body) {
                Some((w, b)) => envelope_spec(s, i + 1, w, b),
                None => match fault_spec(s, i + 1, fault_start()) {
                    Ok(f) => Ok(EnvV::Fault(v, f)),
                    Err(e) => Err(EwsErrV::Xml(e)),
                },
            },
            XmlStepV::Eof => envelope_end(v, seen_body),
            XmlStepV::Failed(m) => Err(EwsErrV::Xml(m)),
            _ => envelope_spec(s, i + 1, v, seen_body),
        }
    }
}

/// The version header of a reply and whether it carries a fault (read in
/// full) or a body.
pub fn read_envelope_summary(bytes: &[u8]) -> (r: Result<EnvelopeKind, EwsError>)
    ensures
        match envelope_spec(document_steps(bytes@, true), 0, no_version(), false) {
            Ok(e) => r matches Ok(x) && envelope_matches(x, e),
            Err(e) => r matches Err(x) && err_matches(x, e),
        },
{
    let steps = xml_steps(bytes, true);
    let ghost s = steps_view(steps@);
    let n = steps.len();
    let mut version = ServerVersionInfo::empty();
    let mut seen_body = false;
    let mut k: usize = 0;
    loop
        invariant
            s == steps_view(steps@),
            s == document_steps(bytes@, true),
            s.len() == steps@.len(),
            n == s.len(),
            well_ended(s),
            k < s.len(),
            envelope_spec(s, 0, no_version(), false) == envelope_spec(s, k as int, version@, seen_body),
        decreases s.len() - k,
    {
        assert(s[k as int] == steps@[k as int]@);
        let (ns, name, attrs) = match &steps[k] {
            XmlStep::Start(ns, name, attrs) => (ns, name, attrs),
            XmlStep::Empty(ns, name, attrs) => (ns, name, attrs),
            XmlStep::Eof => {
                if seen_body {
                    return Ok(EnvelopeKind::Body { version });
                }
                return Err(EwsError::Malformed("envelope had no soap:Body".to_owned()));
            },
            XmlStep::Failed(m) => {
                return Err(EwsError::Xml(m.clone()));
            },
            _ => {
                proof { lemma_next(s, k as int); }
                k = k + 1;
                continue;
            },
        };
        proof { lemma_next(s, k as int); }
        let l = local_name_of(name.as_str());
        if classify(ns) == Ns::Types && str_eq_ignore_case(l.as_str(), "ServerVersionInfo") {
            version = read_version_attrs(attrs.as_str(), version);
        } else if str_eq_ignore_case(l.as_str(), "Fault") {
            return match parse_fault(&steps, k + 1) {
                Ok(fault) => Ok(EnvelopeKind::Fault { version, fault }),
                Err(e) => Err(EwsError::Xml(e)),
            };
        } else if str_eq_ignore_case(l.as_str(), "Body") {
            seen_body = true;
        }
        k = k + 1;
    }
}


// ---------------------------------------------------------------------------
// Folders

#[derive(Debug, Clone, Copy, PartialEq, Eq, Structural)]
pub enum FolderElement {
    Folder,
    CalendarFolder,
    ContactsFolder,
    TasksFolder,
    SearchFolder,
}

pub open spec fn folder_element_of(l: Seq<char>) -> Option<FolderElement> {
    if eq_ignore_case(l, "Folder"@) {
        Some(FolderElement::Folder)
    } else if eq_ignore_case(l, "CalendarFolder"@) {
        Some(FolderElement::CalendarFolder)
    } else if eq_ignore_case(l, "ContactsFolder"@) {
        Some(FolderElement::ContactsFolder)
    } else if eq_ignore_case(l, "TasksFolder"@) {
        Some(FolderElement::TasksFolder)
    } else if eq_ignore_case(l, "SearchFolder"@) {
        Some(FolderElement::SearchFolder)
    } else {
        None
    }
}

impl FolderElement {
    /// The kind of folder an element of this local name holds.
    pub fn from_local(local: &str) -> (r: Option<FolderElement>)
        ensures
            r == folder_element_of(local@),
    {
        if str_eq_ignore_case(local, "Folder") {
            Some(FolderElement::Folder)
        } else if str_eq_ignore_case(local, "CalendarFolder") {
            Some(FolderElement::CalendarFolder)
        } else if str_eq_ignore_case(local, "ContactsFolder") {
            Some(FolderElement::ContactsFolder)
        } else if str_eq_ignore_case(local, "TasksFolder") {
            Some(FolderElement::TasksFolder)
        } else if str_eq_ignore_case(local, "SearchFolder") {
            Some(FolderElement::SearchFolder)
        } else {
            None
        }
    }
}

/// A folder of a `FindFolder` or `GetFolder` reply.
#[derive(Debug, Clone)]
pub struct FolderEntry {
    pub element: FolderElement,
    pub folder_id: FolderId,
    pub parent_id: Option<String>,
    pub display_name: String,
    pub folder_class: String,
    pub total_count: Option<u32>,
    pub child_count: Option<u32>,
}

pub struct FolderV {
    pub element: FolderElement,
    pub id: Seq<char>,
    pub change_key: Seq<char>,
    pub parent_id: Option<Seq<char>>,
    pub display_name: Seq<char>,
    pub folder_class: Seq<char>,
    pub total_count: Option<u32>,
    pub child_count: Option<u32>,
}

impl View for FolderEntry {
    type V = FolderV;

    open spec fn view(&self) -> FolderV {
        FolderV {
            element: self.element,
            id: self.folder_id.id@,
            change_key: self.folder_id.change_key@,
            parent_id: opt_string_view(self.parent_id),
            display_name: self.display_name@,
            folder_class: self.folder_class@,
            total_count: self.total_count,
            child_count: self.child_count,
        }
    }
}

pub open spec fn empty_folder(element: FolderElement) -> FolderV {
    FolderV {
        element,
        id: Seq::empty(),
        change_key: Seq::empty(),
        parent_id: None,
        display_name: Seq::empty(),
        folder_class: Seq::empty(),
        total_count: None,
        child_count: None,
    }
}

impl Default for FolderEntry {
    fn default() -> (r: FolderEntry)
        ensures
            r@ == empty_folder(FolderElement::Folder),
    {
        FolderEntry {
            element: FolderElement::Folder,
            folder_id: FolderId { id: String::new(), change_key: String::new() },
            parent_id: None,
            display_name: String::new(),
            folder_class: String::new(),
            total_count: None,
            child_count: None,
        }
    }
}

#[derive(Debug, Clone, Copy, PartialEq, Eq, Structural)]
pub enum FolderField {
    DisplayName,
    FolderClass,
    TotalCount,
    ChildCount,
}

/// What has been read of a folder element.
pub struct FolderSt {
    pub entry: FolderV,
    pub depth: nat,
    pub current: Option<FolderField>,
}

/// The parent id that a `ParentFolderId` tag gives, when it names one.
pub open spec fn parent_of(attrs: Seq<char>, old: Option<Seq<char>>) -> Option<Seq<char>> {
    let pid = id_attrs(attrs_of(attrs), Seq::empty(), Seq::empty()).0;
    if pid.len() > 0 { Some(pid) } else { old }
}

pub open spec fn folder_tag(f: FolderSt, ns: Option<Seq<char>>, name: Seq<char>, attrs: Seq<char>) -> FolderSt {
    if ews_ns(ns) == Ns::Types {
        let e = f.entry;
        if named(name, "FolderId"@) {
            let (id, ck) = id_attrs(attrs_of(attrs), e.id, e.change_key);
            FolderSt { entry: FolderV { id, change_key: ck, ..e }, ..f }
        } else if named(name, "ParentFolderId"@) {
            FolderSt { entry: FolderV { parent_id: parent_of(attrs, e.parent_id), ..e }, ..f }
        } else if named(name, "DisplayName"@) {
            FolderSt { current: Some(FolderField::DisplayName), ..f }
        } else if named(name, "FolderClass"@) {
            FolderSt { current: Some(FolderField::FolderClass), ..f }
        } else if named(name, "TotalCount"@) {
            FolderSt { current: Some(FolderField::TotalCount), ..f }
        } else if named(name, "ChildFolderCount"@) {
            FolderSt { current: Some(FolderField::ChildCount), ..f }
        } else {
            FolderSt { current: None, ..f }
        }
    } else {
        f
    }
}

/// The effect of one step inside a folder element.
pub open spec fn folder_step(f: FolderSt, e: XmlStepV) -> FolderSt {
    match e {
        XmlStepV::Start(ns, name, attrs) => folder_tag(FolderSt { depth: f.depth + 1, ..f }, ns, name, attrs),
        XmlStepV::Empty(ns, name, attrs) => FolderSt { current: None, ..folder_tag(f, ns, name, attrs) },
        XmlStepV::End(_, _) => FolderSt { depth: (f.depth - 1) as nat, current: None, ..f },
        XmlStepV::Text(t) => match f.current {
            Some(FolderField::DisplayName) => FolderSt { entry: FolderV { display_name: t, ..f.entry }, ..f },
            Some(FolderField::FolderClass) => FolderSt { entry: FolderV { folder_class: t, ..f.entry }, ..f },
            Some(FolderField::TotalCount) => FolderSt { entry: FolderV { total_count: u32_of(trimmed(t)), ..f.entry }, ..f },
            Some(FolderField::ChildCount) => FolderSt { entry: FolderV { child_count: u32_of(trimmed(t)), ..f.entry }, ..f },
            None => f,
        },
        _ => f,
    }
}

/// Reading a folder element whose opening tag was read, up to its closing
/// tag or the end of the document (which is left to be read).
pub open spec fn folder_spec(s: Seq<XmlStepV>, i: int, f: FolderSt) -> (Result<FolderV, Seq<char>>, int)
    decreases s.len() - i,
{
    if i < 0 || i >= s.len() {
        (Ok(f.entry), i)
    } else {
        match s[i] {
            XmlStepV::Eof => (Ok(f.entry), i),
            XmlStepV::Failed(m) => (Err(m), i + 1),
            XmlStepV::End(_, _) => if f.depth <= 1 {
                (Ok(folder_step(f, s[i]).entry), i + 1)
            } else {
                folder_spec(s, i + 1, folder_step(f, s[i]))
            },
            _ => folder_spec(s, i + 1, folder_step(f, s[i])),
        }
    }
}

struct FolderState {
    entry: FolderEntry,
    depth: usize,
    current: Option<FolderField>,
}

impl View for FolderState {
    type V = FolderSt;

    closed spec fn view(&self) -> FolderSt {
        FolderSt { entry: self.entry@, depth: self.depth as nat, current: self.current }
    }
}

fn apply_folder_tag(f: FolderState, ns: &Option<String>, name: &str, attrs: &str) -> (r: FolderState)
    ensures
        r@ == folder_tag(f@, opt_string_view(*ns), name@, attrs@),
        r.depth == f.depth,
{
    let mut f = f;
    if classify(ns) == Ns::Types {
        let l = local_name_of(name);
        let l = l.as_str();
        if str_eq_ignore_case(l, "FolderId") {
            let id = f.entry.folder_id.id.clone();
            let ck = f.entry.folder_id.change_key.clone();
            let (id, ck) = capture_id_attrs(attrs, id, ck);
            f.entry.folder_id = FolderId { id, change_key: ck };
        } else if str_eq_ignore_case(l, "ParentFolderId") {
            let (pid, _ck) = capture_id_attrs(attrs, String::new(), String::new());
            if !pid.as_str().is_empty() {
                f.entry.parent_id = Some(pid);
            }
        } else if str_eq_ignore_case(l, "DisplayName") {
            f.current = Some(FolderField::DisplayName);
        } else if str_eq_ignore_case(l, "FolderClass") {
            f.current = Some(FolderField::FolderClass);
        } else if str_eq_ignore_case(l, "TotalCount") {
            f.current = Some(FolderField::TotalCount);
        } else if str_eq_ignore_case(l, "ChildFolderCount") {
            f.current = Some(FolderField::ChildCount);
        } else {
            f.current = None;
        }
    }
    f
}

fn apply_folder_step(f: FolderState, e: &XmlStep) -> (r: FolderState)
    requires
        f.depth < usize::MAX,
        e@ is End ==> f.depth >= 1,
    ensures
        r@ == folder_step(f@, e@),
        r.depth <= f.depth + 1,
{
    let mut f = f;
    match e {
        XmlStep::Start(ns, name, attrs) => {
            f.depth = f.depth + 1;
            apply_folder_tag(f, ns, name.as_str(), attrs.as_str())
        },
        XmlStep::Empty(ns, name, attrs) => {
            let mut g = apply_folder_tag(f, ns, name.as_str(), attrs.as_str());
            g.current = None;
            g
        },
        XmlStep::End(_, _) => {
            f.depth = f.depth - 1;
            f.current = None;
            f
        },
        XmlStep::Text(t) => {
            match f.current {
                Some(FolderField::DisplayName) => {
                    f.entry.display_name = t.clone();
                },
                Some(FolderField::FolderClass) => {
                    f.entry.folder_class = t.clone();
                },
                Some(FolderField::TotalCount) => {
                    let w = trim_chars(t.as_str());
                    f.entry.total_count = parse_u32(w.as_str());
                },
                Some(FolderField::ChildCount) => {
                    let w = trim_chars(t.as_str());
                    f.entry.child_count = parse_u32(w.as_str());
                },
                None => {},
            }
            f
        },
        _ => f,
    }
}

pub open spec fn folder_outcome(spec: (Result<FolderV, Seq<char>>, int), r: Result<(FolderEntry, usize), String>, i: int, n: int) -> bool {
    match spec.0 {
        Ok(v) => r matches Ok(p) && p.0@ == v && p.1 == spec.1 && i <= p.1 < n,
        Err(e) => r matches Err(m) && m@ == e,
    }
}

fn parse_folder_element(steps: &Vec<XmlStep>, i: usize, element: FolderElement) -> (r: Result<(FolderEntry, usize), String>)
    requires
        well_read(steps_view(steps@), i as int),
    ensures
        folder_outcome(folder_spec(steps_view(steps@), i as int, FolderSt { entry: empty_folder(element), depth: 1, current: None }), r, i as int, steps@.len() as int),
{
    let ghost s = steps_view(steps@);
    let ghost start = FolderSt { entry: empty_folder(element), depth: 1, current: None };
    let n = steps.len();
    let mut base = FolderEntry::default();
    base.element = element;
    let mut f = FolderState { entry: base, depth: 1, current: None };
    let mut k: usize = i;
    loop
        invariant_except_break
            1 <= f.depth <= k - i + 1,
            folder_spec(s, i as int, start) == folder_spec(s, k as int, f@),
        invariant
            s == steps_view(steps@),
            start == (FolderSt { entry: empty_folder(element), depth: 1, current: None }),
            s.len() == steps@.len(),
            n == s.len(),
            well_ended(s),
            i <= k < s.len(),
        ensures
            folder_spec(s, i as int, start) == (Ok::<FolderV, Seq<char>>(f.entry@), k as int),
        decreases s.len() - k,
    {
        assert(s[k as int] == steps@[k as int]@);
        match &steps[k] {
            XmlStep::Eof => {
                break;
            },
            XmlStep::Failed(m) => {
                return Err(m.clone());
            },
            XmlStep::End(_, _) => {
                proof { lemma_next(s, k as int); }
                let last = f.depth <= 1;
                f = apply_folder_step(f, &steps[k]);
                k = k + 1;
                if last {
                    break;
                }
            },
            _ => {
                proof { lemma_next(s, k as int); }
                f = apply_folder_step(f, &steps[k]);
                k = k + 1;
            },
        }
    }
    Ok((f.entry, k))
}


/// A `FindFolder` reply.
#[derive(Debug, Clone)]
pub struct FindFolderResponse {
    pub folders: Vec<FolderEntry>,
    pub more: bool,
    pub total_in_view: Option<u32>,
}

pub struct FindFolderV {
    pub folders: Seq<FolderV>,
    pub more: bool,
    pub total_in_view: Option<u32>,
}

pub open spec fn folders_view(v: Seq<FolderEntry>) -> Seq<FolderV> {
    v.map_values(|f: FolderEntry| f@)
}

/// The paging attributes of a `RootFolder` tag.
pub open spec fn paging(attrs: Seq<char>, total: Option<u32>, more: bool) -> (Option<u32>, bool) {
    let t = match attr_in(attrs_of(attrs), "TotalItemsInView"@) {
        Some(v) => u32_of(trimmed(v)),
        None => total,
    };
    let m = match attr_in(attrs_of(attrs), "IncludesLastItemInRange"@) {
        Some(v) => !truthy(v),
        None => more,
    };
    (t, m)
}

fn read_paging(attrs: &str, total: Option<u32>, more: bool) -> (r: (Option<u32>, bool))
    ensures
        r == paging(attrs@, total, more),
{
    let t = match attr_value(attrs, "TotalItemsInView") {
        Some(v) => {
            let w = trim_chars(v.as_str());
            parse_u32(w.as_str())
        },
        None => total,
    };
    let m = match attr_value(attrs, "IncludesLastItemInRange") {
        Some(v) => !is_truthy(v.as_str()),
        None => more,
    };
    (t, m)
}

pub open spec fn folder_start(el: FolderElement) -> FolderSt {
    FolderSt { entry: empty_folder(el), depth: 1, current: None }
}

/// What a tag of a `FindFolder` reply does: the paging of `RootFolder`, or
/// the kind of folder element it opens.
pub open spec fn find_folder_tag(ns: Option<Seq<char>>, name: Seq<char>) -> Option<FolderElement> {
    if ews_ns(ns) == Ns::Types { folder_element_of(local_name(name)) } else { None }
}

/// Reading a `FindFolder` reply from step `i`.
pub open spec fn find_folder_spec(s: Seq<XmlStepV>, i: int, out: FindFolderV) -> Result<FindFolderV, Seq<char>>
    decreases s.len() - i,
{
    if i < 0 || i >= s.len() {
        Ok(out)
    } else {
        match s[i] {
            XmlStepV::Start(ns, name, attrs) => find_folder_on_tag(s, i, out, ns, name, attrs),
            XmlStepV::Empty(ns, name, attrs) => find_folder_on_tag(s, i, out, ns, name, attrs),
            XmlStepV::Eof => Ok(out),
            XmlStepV::Failed(m) => Err(m),
            _ => find_folder_spec(s, i + 1, out),
        }
    }
}

pub open spec fn find_folder_on_tag(s: Seq<XmlStepV>, i: int, out: FindFolderV, ns: Option<Seq<char>>, name: Seq<char>, attrs: Seq<char>) -> Result<FindFolderV, Seq<char>>
    decreases s.len() - i, 0int,
{
    if i < 0 || i >= s.len() {
        Ok(out)
    } else if ews_ns(ns) == Ns::Messages && named(name, "RootFolder"@) {
        let (t, m) = paging(attrs, out.total_in_view, out.more);
        find_folder_spec(s, i + 1, FindFolderV { total_in_view: t, more: m, ..out })
    } else {
        match find_folder_tag(ns, name) {
            Some(el) => {
                let (r, j) = folder_spec(s, i + 1, folder_start(el));
                match r {
                    Err(e) => Err(e),
                    Ok(f) => if i < j <= s.len() {
                        find_folder_spec(s, j, FindFolderV { folders: out.folders.push(f), ..out })
                    } else {
                        Ok(out)
                    },
                }
            },
            None => find_folder_spec(s, i + 1, out),
        }
    }
}


impl View for FindFolderResponse {
    type V = FindFolderV;

    open spec fn view(&self) -> FindFolderV {
        FindFolderV { folders: folders_view(self.folders@), more: self.more, total_in_view: self.total_in_view }
    }
}

/// The steps of a document that is passed as text.
pub open spec fn text_steps(t: Seq<char>, trim: bool) -> Seq<XmlStepV> {
    document_steps(encode_utf8(t), trim)
}

/// The folders of a `FindFolder` reply and its paging.
pub fn parse_find_folder_response(body: &[u8]) -> (r: Result<FindFolderResponse, EwsError>)
    ensures
        match find_folder_spec(document_steps(body@, true), 0, FindFolderV { folders: Seq::empty(), more: false, total_in_view: None }) {
            Ok(v) => r matches Ok(x) && x@ == v,
            Err(e) => r matches Err(EwsError::Xml(m)) && m@ == e,
        },
{
    let steps = xml_steps(body, true);
    let ghost s = steps_view(steps@);
    let n = steps.len();
    let mut out = FindFolderResponse { folders: Vec::new(), more: false, total_in_view: None };
    let mut k: usize = 0;
    assert(folders_view(out.folders@) =~= Seq::<FolderV>::empty());
    loop
        invariant
            s == steps_view(steps@),
            s == document_steps(body@, true),
            s.len() == steps@.len(),
            n == s.len(),
            well_ended(s),
            k < s.len(),
            find_folder_spec(s, 0, FindFolderV { folders: Seq::empty(), more: false, total_in_view: None }) == find_folder_spec(s, k as int, out@),
        decreases s.len() - k,
    {
        assert(s[k as int] == steps@[k as int]@);
        let (ns, name, attrs) = match &steps[k] {
            XmlStep::Start(ns, name, attrs) => (ns, name, attrs),
            XmlStep::Empty(ns, name, attrs) => (ns, name, attrs),
            XmlStep::Eof => {
                return Ok(out);
            },
            XmlStep::Failed(m) => {
                return Err(EwsError::Xml(m.clone()));
            },
            _ => {
                proof { lemma_next(s, k as int); }
                k = k + 1;
                continue;
            },
        };
        proof {
            lemma_next(s, k as int);
            assert(find_folder_spec(s, k as int, out@) == find_folder_on_tag(s, k as int, out@, opt_string_view(*ns), name@, attrs@));
        }
        let l = local_name_of(name.as_str());
        let kind = classify(ns);
        if kind == Ns::Messages && str_eq_ignore_case(l.as_str(), "RootFolder") {
            let (t, m) = read_paging(attrs.as_str(), out.total_in_view, out.more);
            out.total_in_view = t;
            out.more = m;
            k = k + 1;
        } else {
            let el = if kind == Ns::Types { FolderElement::from_local(l.as_str()) } else { None };
            match el {
                Some(el) => {
                    match parse_folder_element(&steps, k + 1, el) {
                        Ok((f, j)) => {
                            let ghost before = folders_view(out.folders@);
                            let ghost fv = f@;
                            out.folders.push(f);
                            assert(folders_view(out.folders@) =~= before.push(fv));
                            k = j;
                        },
                        Err(e) => {
                            return Err(EwsError::Xml(e));
                        },
                    }
                },
                None => {
                    k = k + 1;
                },
            }
        }
    }
}

/// Reading the first folder element of a document from step `i`.
pub open spec fn folder_inner_spec(s: Seq<XmlStepV>, i: int) -> Result<Option<FolderV>, Seq<char>>
    decreases s.len() - i,
{
    if i < 0 || i >= s.len() {
        Ok(None)
    } else {
        match s[i] {
            XmlStepV::Start(ns, name, _) => match find_folder_tag(ns, name) {
                Some(el) => match folder_spec(s, i + 1, folder_start(el)).0 {
                    Ok(f) => Ok(Some(f)),
                    Err(e) => Err(e),
                },
                None => folder_inner_spec(s, i + 1),
            },
            XmlStepV::Empty(ns, name, _) => match find_folder_tag(ns, name) {
                Some(el) => match folder_spec(s, i + 1, folder_start(el)).0 {
                    Ok(f) => Ok(Some(f)),
                    Err(e) => Err(e),
                },
                None => folder_inner_spec(s, i + 1),
            },
            XmlStepV::Eof => Ok(None),
            XmlStepV::Failed(m) => Err(m),
            _ => folder_inner_spec(s, i + 1),
        }
    }
}

/// The first folder of a fragment (the inner XML of a `GetFolder` response
/// message), or `None`.
pub fn parse_folder_inner(inner_xml: &str) -> (r: Result<Option<FolderEntry>, EwsError>)
    ensures
        match folder_inner_spec(text_steps(inner_xml@, true), 0) {
            Ok(Some(v)) => r matches Ok(Some(x)) && x@ == v,
            Ok(None) => r matches Ok(None),
            Err(e) => r matches Err(EwsError::Xml(m)) && m@ == e,
        },
{
    let steps = xml_steps(inner_xml.as_bytes(), true);
    let ghost s = steps_view(steps@);
    let n = steps.len();
    let mut k: usize = 0;
    loop
        invariant
            s == steps_view(steps@),
            s == text_steps(inner_xml@, true),
            s.len() == steps@.len(),
            n == s.len(),
            well_ended(s),
            k < s.len(),
            folder_inner_spec(s, 0) == folder_inner_spec(s, k as int),
        decreases s.len() - k,
    {
        assert(s[k as int] == steps@[k as int]@);
        let (ns, name) = match &steps[k] {
            XmlStep::Start(ns, name, _) => (ns, name),
            XmlStep::Empty(ns, name, _) => (ns, name),
            XmlStep::Eof => {
                return Ok(None);
            },
            XmlStep::Failed(m) => {
                return Err(EwsError::Xml(m.clone()));
            },
            _ => {
                proof { lemma_next(s, k as int); }
                k = k + 1;
                continue;
            },
        };
        proof { lemma_next(s, k as int); }
        let l = local_name_of(name.as_str());
        let el = if classify(ns) == Ns::Types { FolderElement::from_local(l.as_str()) } else { None };
        match el {
            Some(el) => {
                return match parse_folder_element(&steps, k + 1, el) {
                    Ok((f, _)) => Ok(Some(f)),
                    Err(e) => Err(EwsError::Xml(e)),
                };
            },
            None => {
                k = k + 1;
            },
        }
    }
}

/// Reading the folder elements of a `GetFolder` reply from step `i`.
pub open spec fn get_folder_spec(s: Seq<XmlStepV>, i: int, out: Seq<FolderV>) -> Result<Seq<FolderV>, Seq<char>>
    decreases s.len() - i,
{
    if i < 0 || i >= s.len() {
        Ok(out)
    } else {
        match s[i] {
            XmlStepV::Start(ns, name, _) => get_folder_on_tag(s, i, out, ns, name),
            XmlStepV::Empty(ns, name, _) => get_folder_on_tag(s, i, out, ns, name),
            XmlStepV::Eof => Ok(out),
            XmlStepV::Failed(m) => Err(m),
            _ => get_folder_spec(s, i + 1, out),
        }
    }
}

pub open spec fn get_folder_on_tag(s: Seq<XmlStepV>, i: int, out: Seq<FolderV>, ns: Option<Seq<char>>, name: Seq<char>) -> Result<Seq<FolderV>, Seq<char>>
    decreases s.len() - i, 0int,
{
    if i < 0 || i >= s.len() {
        Ok(out)
    } else {
        match find_folder_tag(ns, name) {
            Some(el) => {
                let (r, j) = folder_spec(s, i + 1, folder_start(el));
                match r {
                    Err(e) => Err(e),
                    Ok(f) => if i < j <= s.len() { get_folder_spec(s, j, out.push(f)) } else { Ok(out) },
                }
            },
            None => get_folder_spec(s, i + 1, out),
        }
    }
}

/// The folders of a `GetFolder` reply, in order.
pub fn parse_get_folder_response(body: &[u8]) -> (r: Result<Vec<FolderEntry>, EwsError>)
    ensures
        match get_folder_spec(document_steps(body@, true), 0, Seq::empty()) {
            Ok(v) => r matches Ok(x) && folders_view(x@) == v,
            Err(e) => r matches Err(EwsError::Xml(m)) && m@ == e,
        },
{
    let steps = xml_steps(body, true);
    let ghost s = steps_view(steps@);
    let n = steps.len();
    let mut out: Vec<FolderEntry> = Vec::new();
    let mut k: usize = 0;
    assert(folders_view(out@) =~= Seq::<FolderV>::empty());
    loop
        invariant
            s == steps_view(steps@),
            s == document_steps(body@, true),
            s.len() == steps@.len(),
            n == s.len(),
            well_ended(s),
            k < s.len(),
            get_folder_spec(s, 0, Seq::empty()) == get_folder_spec(s, k as int, folders_view(out@)),
        decreases s.len() - k,
    {
        assert(s[k as int] == steps@[k as int]@);
        let (ns, name) = match &steps[k] {
            XmlStep::Start(ns, name, _) => (ns, name),
            XmlStep::Empty(ns, name, _) => (ns, name),
            XmlStep::Eof => {
                return Ok(out);
            },
            XmlStep::Failed(m) => {
                return Err(EwsError::Xml(m.clone()));
            },
            _ => {
                proof { lemma_next(s, k as int); }
                k = k + 1;
                continue;
            },
        };
        proof {
            lemma_next(s, k as int);
            assert(get_folder_spec(s, k as int, folders_view(out@)) == get_folder_on_tag(s, k as int, folders_view(out@), opt_string_view(*ns), name@));
        }
        let l = local_name_of(name.as_str());
        let el = if classify(ns) == Ns::Types { FolderElement::from_local(l.as_str()) } else { None };
        match el {
            Some(el) => {
                match parse_folder_element(&steps, k + 1, el) {
                    Ok((f, j)) => {
                        let ghost before = folders_view(out@);
                        let ghost fv = f@;
                        out.push(f);
                        assert(folders_view(out@) =~= before.push(fv));
                        k = j;
                    },
                    Err(e) => {
                        return Err(EwsError::Xml(e));
                    },
                }
            },
            None => {
                k = k + 1;
            },
        }
    }
}


// ---------------------------------------------------------------------------
// Items found

/// An item of a `FindItem` reply: its element name and id.
#[derive(Debug, Clone)]
pub struct ItemEntry {
    pub element: String,
    pub id: ItemId,
}

pub struct ItemEntryV {
    pub element: Seq<char>,
    pub id: Seq<char>,
    pub change_key: Seq<char>,
}

impl View for ItemEntry {
    type V = ItemEntryV;

    open spec fn view(&self) -> ItemEntryV {
        ItemEntryV { element: self.element@, id: self.id.id@, change_key: self.id.change_key@ }
    }
}

/// A `FindItem` reply.
#[derive(Debug, Clone)]
pub struct FindItemResponse {
    pub items: Vec<ItemEntry>,
    pub total_in_view: Option<u32>,
    pub more: bool,
}

pub struct FindItemV {
    pub items: Seq<ItemEntryV>,
    pub total_in_view: Option<u32>,
    pub more: bool,
}

pub open spec fn items_view(v: Seq<ItemEntry>) -> Seq<ItemEntryV> {
    v.map_values(|e: ItemEntry| e@)
}

impl View for FindItemResponse {
    type V = FindItemV;

    open spec fn view(&self) -> FindItemV {
        FindItemV { items: items_view(self.items@), total_in_view: self.total_in_view, more: self.more }
    }
}

/// The effect of a tag of a `FindItem` reply; `in_root` says whether the
/// `RootFolder` is open.
pub open spec fn find_item_tag(st: (FindItemV, bool), ns: Option<Seq<char>>, name: Seq<char>, attrs: Seq<char>) -> (FindItemV, bool) {
    let (out, in_root) = st;
    let l = local_name(name);
    if ews_ns(ns) == Ns::Messages && eq_ignore_case(l, "RootFolder"@) {
        let (t, m) = paging(attrs, out.total_in_view, out.more);
        (FindItemV { total_in_view: t, more: m, ..out }, true)
    } else if in_root && ews_ns(ns) == Ns::Types {
        if item_element(l) {
            (FindItemV { items: out.items.push(ItemEntryV { element: l, id: Seq::empty(), change_key: Seq::empty() }), ..out }, in_root)
        } else if eq_ignore_case(l, "ItemId"@) && out.items.len() > 0 {
            let last = out.items.last();
            let (id, ck) = id_attrs(attrs_of(attrs), last.id, last.change_key);
            (FindItemV { items: out.items.update(out.items.len() - 1, ItemEntryV { id, change_key: ck, ..last }), ..out }, in_root)
        } else {
            st
        }
    } else {
        st
    }
}

pub open spec fn find_item_step(st: (FindItemV, bool), e: XmlStepV) -> (FindItemV, bool) {
    match e {
        XmlStepV::Start(ns, name, attrs) => find_item_tag(st, ns, name, attrs),
        XmlStepV::Empty(ns, name, attrs) => find_item_tag(st, ns, name, attrs),
        XmlStepV::End(_, name) => if named(name, "RootFolder"@) { (st.0, false) } else { st },
        _ => st,
    }
}

/// Reading a `FindItem` reply from step `i`.
pub open spec fn find_item_spec(s: Seq<XmlStepV>, i: int, st: (FindItemV, bool)) -> Result<FindItemV, Seq<char>>
    decreases s.len() - i,
{
    if i < 0 || i >= s.len() {
        Ok(st.0)
    } else {
        match s[i] {
            XmlStepV::Eof => Ok(st.0),
            XmlStepV::Failed(m) => Err(m),
            _ => find_item_spec(s, i + 1, find_item_step(st, s[i])),
        }
    }
}

fn apply_find_item_tag(out: FindItemResponse, in_root: bool, ns: &Option<String>, name: &str, attrs: &str) -> (r: (FindItemResponse, bool))
    ensures
        (r.0@, r.1) == find_item_tag((out@, in_root), opt_string_view(*ns), name@, attrs@),
{
    let mut out = out;
    let l = local_name_of(name);
    let kind = classify(ns);
    if kind == Ns::Messages && str_eq_ignore_case(l.as_str(), "RootFolder") {
        let (t, m) = read_paging(attrs, out.total_in_view, out.more);
        out.total_in_view = t;
        out.more = m;
        return (out, true);
    }
    if in_root && kind == Ns::Types {
        if is_item_element(l.as_str()) {
            let ghost before = items_view(out.items@);
            let ghost lv = l@;
            out.items.push(ItemEntry { element: l, id: ItemId { id: String::new(), change_key: String::new() } });
            assert(items_view(out.items@) =~= before.push(ItemEntryV { element: lv, id: Seq::empty(), change_key: Seq::empty() }));
        } else if str_eq_ignore_case(l.as_str(), "ItemId") && out.items.len() > 0 {
            let ghost before = items_view(out.items@);
            let last = out.items.len() - 1;
            let mut e = out.items.remove(last);
            let (id, ck) = capture_id_attrs(attrs, e.id.id, e.id.change_key);
            e.id = ItemId { id, change_key: ck };
            let ghost ev = e@;
            out.items.push(e);
            assert(items_view(out.items@) =~= before.update(before.len() - 1, ev));
        }
    }
    (out, in_root)
}

/// The items of a `FindItem` reply (those inside its `RootFolder`) and its
/// paging.
pub fn parse_find_item_response(body: &[u8]) -> (r: Result<FindItemResponse, EwsError>)
    ensures
        match find_item_spec(document_steps(body@, true), 0, (FindItemV { items: Seq::empty(), total_in_view: None, more: false }, false)) {
            Ok(v) => r matches Ok(x) && x@ == v,
            Err(e) => r matches Err(EwsError::Xml(m)) && m@ == e,
        },
{
    let steps = xml_steps(body, true);
    let ghost s = steps_view(steps@);
    let n = steps.len();
    let mut out = FindItemResponse { items: Vec::new(), total_in_view: None, more: false };
    let mut in_root = false;
    let mut k: usize = 0;
    assert(items_view(out.items@) =~= Seq::<ItemEntryV>::empty());
    loop
        invariant
            s == steps_view(steps@),
            s == document_steps(body@, true),
            s.len() == steps@.len(),
            n == s.len(),
            well_ended(s),
            k < s.len(),
            find_item_spec(s, 0, (FindItemV { items: Seq::empty(), total_in_view: None, more: false }, false)) == find_item_spec(s, k as int, (out@, in_root)),
        decreases s.len() - k,
    {
        assert(s[k as int] == steps@[k as int]@);
        match &steps[k] {
            XmlStep::Eof => {
                return Ok(out);
            },
            XmlStep::Failed(m) => {
                return Err(EwsError::Xml(m.clone()));
            },
            XmlStep::Start(ns, name, attrs) => {
                let (o, r) = apply_find_item_tag(out, in_root, ns, name.as_str(), attrs.as_str());
                out = o;
                in_root = r;
            },
            XmlStep::Empty(ns, name, attrs) => {
                let (o, r) = apply_find_item_tag(out, in_root, ns, name.as_str(), attrs.as_str());
                out = o;
                in_root = r;
            },
            XmlStep::End(_, name) => {
                let l = local_name_of(name.as_str());
                if str_eq_ignore_case(l.as_str(), "RootFolder") {
                    in_root = false;
                }
            },
            _ => {},
        }
        proof { lemma_next(s, k as int); }
        k = k + 1;
    }
}


// ---------------------------------------------------------------------------
// Response messages

/// The attributes of a tag written back as markup, values escaped.
pub open spec fn attr_markup(l: Seq<(Seq<char>, Seq<char>)>) -> Seq<char>
    decreases l.len(),
{
    if l.len() == 0 {
        Seq::empty()
    } else {
        attr_markup(l.drop_last()) + " "@ + l.last().0 + "=\""@ + markup_escape(l.last().1, true) + "\""@
    }
}

/// A tag written back as markup, ending with `close` (`>` or `/>`).
pub open spec fn tag_markup(name: Seq<char>, attrs: Seq<char>, close: Seq<char>) -> Seq<char> {
    "<"@ + name + attr_markup(attrs_of(attrs)) + close
}

fn push_tag_markup(out: &mut String, name: &str, attrs: &str, close: &str)
    ensures
        final(out)@ == old(out)@ + tag_markup(name@, attrs@, close@),
{
    let ghost start = out@;
    let list = tag_attributes(attrs);
    let ghost l = attrs_of(attrs@);
    out.append("<");
    out.append(name);
    let ghost head = out@;
    assert(head == start + "<"@ + name@);
    let mut i: usize = 0;
    assert(l.take(0) =~= Seq::<(Seq<char>, Seq<char>)>::empty());
    while i < list.len()
        invariant
            i <= list@.len(),
            l == attrs_of(attrs@),
            list@.map_values(|p: (String, String)| (p.0@, p.1@)) == l,
            out@ == head + attr_markup(l.take(i as int)),
        decreases list.len() - i,
    {
        assert(l[i as int] == (list@[i as int].0@, list@[i as int].1@));
        assert(l.take(i + 1).drop_last() =~= l.take(i as int));
        out.append(" ");
        out.append(list[i].0.as_str());
        out.append("=\"");
        append_markup_escaped(out, list[i].1.as_str(), true);
        out.append("\"");
        i = i + 1;
    }
    assert(l.take(i as int) =~= l);
    out.append(close);
    assert(out@ =~= start + tag_markup(name@, attrs@, close@));
}

#[derive(Debug, Clone, Copy, PartialEq, Eq, Structural)]
pub enum MessageField {
    ResponseCode,
    MessageText,
}

/// What has been read of a response message: the response code text, the
/// message text, the inner markup captured so far, the nesting depth, the
/// element whose text is awaited, and the depth inside the captured block.
pub struct MessageSt {
    pub code: Seq<char>,
    pub message_text: Seq<char>,
    pub inner: Seq<char>,
    pub depth: nat,
    pub current: Option<MessageField>,
    pub capture: nat,
}

pub open spec fn message_start() -> MessageSt {
    MessageSt { code: "NoError"@, message_text: Seq::empty(), inner: Seq::empty(), depth: 1, current: None, capture: 0 }
}

/// Whether a tag opens the block that is captured as inner markup.
pub open spec fn capture_block(ns: Option<Seq<char>>, name: Seq<char>) -> bool {
    ews_ns(ns) == Ns::Messages && (named(name, "Items"@) || named(name, "Attachments"@) || named(name, "Folders"@))
}

/// The effect of one step inside a response message.
pub open spec fn message_step(st: MessageSt, e: XmlStepV) -> MessageSt {
    let inside = st.capture > 0;
    match e {
        XmlStepV::Start(ns, name, attrs) => {
            let st = MessageSt { depth: st.depth + 1, ..st };
            if !inside && ews_ns(ns) == Ns::Messages && named(name, "ResponseCode"@) {
                MessageSt { current: Some(MessageField::ResponseCode), ..st }
            } else if !inside && ews_ns(ns) == Ns::Messages && named(name, "MessageText"@) {
                MessageSt { current: Some(MessageField::MessageText), ..st }
            } else if !inside && capture_block(ns, name) {
                MessageSt { capture: 1, current: None, ..st }
            } else if inside {
                MessageSt { inner: st.inner + tag_markup(name, attrs, ">"@), capture: st.capture + 1, ..st }
            } else {
                MessageSt { current: None, ..st }
            }
        },
        XmlStepV::Empty(_, name, attrs) => if inside {
            MessageSt { inner: st.inner + tag_markup(name, attrs, "/>"@), ..st }
        } else {
            st
        },
        XmlStepV::End(_, name) => {
            let st = if inside {
                if st.capture == 1 {
                    MessageSt { capture: 0, ..st }
                } else {
                    MessageSt { inner: st.inner + "</"@ + name + ">"@, capture: (st.capture - 1) as nat, ..st }
                }
            } else {
                st
            };
            MessageSt { depth: (st.depth - 1) as nat, current: None, ..st }
        },
        XmlStepV::Text(t) => if inside {
            MessageSt { inner: st.inner + markup_escape(t, false), ..st }
        } else {
            match st.current {
                Some(MessageField::ResponseCode) => MessageSt { code: trimmed(t), ..st },
                Some(MessageField::MessageText) => MessageSt { message_text: t, ..st },
                None => st,
            }
        },
        XmlStepV::CData(t) => if inside {
            MessageSt { inner: st.inner + markup_escape(t, false), ..st }
        } else {
            st
        },
        _ => st,
    }
}

/// Reading a response message whose opening tag was read, up to its closing
/// tag or the end of the document (left to be read).
pub open spec fn message_spec(s: Seq<XmlStepV>, i: int, st: MessageSt) -> (Result<MessageSt, Seq<char>>, int)
    decreases s.len() - i,
{
    if i < 0 || i >= s.len() {
        (Ok(st), i)
    } else {
        match s[i] {
            XmlStepV::Eof => (Ok(st), i),
            XmlStepV::Failed(m) => (Err(m), i + 1),
            XmlStepV::End(_, _) => if st.depth <= 1 {
                (Ok(message_step(st, s[i])), i + 1)
            } else {
                message_spec(s, i + 1, message_step(st, s[i]))
            },
            _ => message_spec(s, i + 1, message_step(st, s[i])),
        }
    }
}

struct MessageState {
    code: String,
    message_text: String,
    inner: String,
    depth: usize,
    current: Option<MessageField>,
    capture: usize,
}

impl View for MessageState {
    type V = MessageSt;

    closed spec fn view(&self) -> MessageSt {
        MessageSt {
            code: self.code@,
            message_text: self.message_text@,
            inner: self.inner@,
            depth: self.depth as nat,
            current: self.current,
            capture: self.capture as nat,
        }
    }
}

#[verifier::rlimit(30)]
fn apply_message_step(st: MessageState, e: &XmlStep) -> (r: MessageState)
    requires
        st.depth < usize::MAX,
        st.capture < usize::MAX,
        e@ is End ==> st.depth >= 1,
    ensures
        r@ == message_step(st@, e@),
        r.depth <= st.depth + 1,
        r.capture <= st.capture + 1,
{
    let mut st = st;
    let inside = st.capture > 0;
    match e {
        XmlStep::Start(ns, name, attrs) => {
            st.depth = st.depth + 1;
            let l = local_name_of(name.as_str());
            let kind = classify(ns);
            if !inside && kind == Ns::Messages && str_eq_ignore_case(l.as_str(), "ResponseCode") {
                st.current = Some(MessageField::ResponseCode);
            } else if !inside && kind == Ns::Messages && str_eq_ignore_case(l.as_str(), "MessageText") {
                st.current = Some(MessageField::MessageText);
            } else if !inside && kind == Ns::Messages && (str_eq_ignore_case(l.as_str(), "Items")
                || str_eq_ignore_case(l.as_str(), "Attachments") || str_eq_ignore_case(l.as_str(), "Folders")) {
                st.capture = 1;
                st.current = None;
            } else if inside {
                push_tag_markup(&mut st.inner, name.as_str(), attrs.as_str(), ">");
                st.capture = st.capture + 1;
            } else {
                st.current = None;
            }
        },
        XmlStep::Empty(_, name, attrs) => {
            if inside {
                push_tag_markup(&mut st.inner, name.as_str(), attrs.as_str(), "/>");
            }
        },
        XmlStep::End(_, name) => {
            if inside {
                if st.capture == 1 {
                    st.capture = 0;
                } else {
                    st.inner.append("</");
                    st.inner.append(name.as_str());
                    st.inner.append(">");
                    st.capture = st.capture - 1;
                }
            }
            st.depth = st.depth - 1;
            st.current = None;
        },
        XmlStep::Text(t) => {
            if inside {
                append_markup_escaped(&mut st.inner, t.as_str(), false);
            } else {
                match st.current {
                    Some(MessageField::ResponseCode) => {
                        st.code = trim_chars(t.as_str());
                    },
                    Some(MessageField::MessageText) => {
                        st.message_text = t.clone();
                    },
                    None => {},
                }
            }
        },
        XmlStep::CData(t) => {
            if inside {
                append_markup_escaped(&mut st.inner, t.as_str(), false);
            }
        },
        _ => {},
    }
    st
}

pub open spec fn message_outcome(spec: (Result<MessageSt, Seq<char>>, int), r: Result<(String, String, String, usize), String>, i: int, n: int) -> bool {
    match spec.0 {
        Ok(v) => r matches Ok(p) && p.0@ == v.code && p.1@ == v.message_text && p.2@ == v.inner && p.3 == spec.1 && i <= p.3 < n,
        Err(e) => r matches Err(m) && m@ == e,
    }
}

/// The code text, message text and inner markup of a response message read
/// from step `i`, and the index after it.
fn read_message(steps: &Vec<XmlStep>, i: usize) -> (r: Result<(String, String, String, usize), String>)
    requires
        well_read(steps_view(steps@), i as int),
    ensures
        message_outcome(message_spec(steps_view(steps@), i as int, message_start()), r, i as int, steps@.len() as int),
{
    let ghost s = steps_view(steps@);
    let n = steps.len();
    let mut st = MessageState { code: "NoError".to_owned(), message_text: String::new(), inner: String::new(), depth: 1, current: None, capture: 0 };
    let mut k: usize = i;
    loop
        invariant_except_break
            1 <= st.depth <= k - i + 1,
            st.capture <= k - i,
            message_spec(s, i as int, message_start()) == message_spec(s, k as int, st@),
        invariant
            s == steps_view(steps@),
            s.len() == steps@.len(),
            n == s.len(),
            well_ended(s),
            i <= k < s.len(),
        ensures
            message_spec(s, i as int, message_start()) == (Ok::<MessageSt, Seq<char>>(st@), k as int),
        decreases s.len() - k,
    {
        assert(s[k as int] == steps@[k as int]@);
        match &steps[k] {
            XmlStep::Eof => {
                break;
            },
            XmlStep::Failed(m) => {
                return Err(m.clone());
            },
            XmlStep::End(_, _) => {
                proof { lemma_next(s, k as int); }
                let last = st.depth <= 1;
                st = apply_message_step(st, &steps[k]);
                k = k + 1;
                if last {
                    break;
                }
            },
            _ => {
                proof { lemma_next(s, k as int); }
                st = apply_message_step(st, &steps[k]);
                k = k + 1;
            },
        }
    }
    Ok((st.code, st.message_text, st.inner, k))
}


/// One response message of a reply.
#[derive(Debug, Clone)]
pub struct ResponseMessage {
    pub success: bool,
    pub response_code: ResponseCode,
    pub message_text: String,
    pub inner_xml: String,
}

pub struct ResponseMessageV {
    pub success: bool,
    pub code: Seq<char>,
    pub message_text: Seq<char>,
    pub inner_xml: Seq<char>,
}

/// A response message whose code was read from `v.code`.
pub open spec fn message_matches(x: ResponseMessage, v: ResponseMessageV) -> bool {
    &&& x.success == v.success
    &&& code_matches(x.response_code, v.code, None)
    &&& x.message_text@ == v.message_text
    &&& x.inner_xml@ == v.inner_xml
}

/// The captured markup inside a root element that declares the EWS
/// namespaces (the types namespace as default and as `t`, the messages
/// namespace as `m`); nothing when nothing was captured.
pub open spec fn wrapped_inner(inner: Seq<char>) -> Seq<char> {
    if inner.len() == 0 {
        Seq::empty()
    } else {
        "<vandelay-inner xmlns=\""@ + NS_TYPES@ + "\" xmlns:t=\""@ + NS_TYPES@ + "\" xmlns:m=\""@ + NS_MESSAGES@ + "\">"@ + inner
            + "</vandelay-inner>"@
    }
}

fn wrap_inner_with_namespaces(inner: &str) -> (r: String)
    ensures
        r@ == wrapped_inner(inner@),
{
    if inner.is_empty() {
        return String::new();
    }
    let mut out = String::new();
    out.append("<vandelay-inner xmlns=\"");
    out.append(NS_TYPES);
    out.append("\" xmlns:t=\"");
    out.append(NS_TYPES);
    out.append("\" xmlns:m=\"");
    out.append(NS_MESSAGES);
    out.append("\">");
    out.append(inner);
    out.append("</vandelay-inner>");
    out
}

/// The response message that a read message and its class give.
pub open spec fn finished_message(st: MessageSt, class: Seq<char>) -> ResponseMessageV {
    ResponseMessageV {
        success: class == "Success"@ || class == "Warning"@,
        code: st.code,
        message_text: st.message_text,
        inner_xml: wrapped_inner(st.inner),
    }
}

/// The class of a response message (`Success` when absent).
pub open spec fn response_class(attrs: Seq<char>) -> Seq<char> {
    match attr_in(attrs_of(attrs), "ResponseClass"@) {
        Some(c) => c,
        None => "Success"@,
    }
}

/// Whether an opening tag starts a response message named `target`.
pub open spec fn is_message_tag(ns: Option<Seq<char>>, name: Seq<char>, target: Seq<u8>) -> bool {
    ews_ns(ns) == Ns::Messages && bytes_eq_ignore_case(encode_utf8(local_name(name)), target)
}

/// Reading the response messages named `target` from step `i`.
pub open spec fn messages_spec(s: Seq<XmlStepV>, i: int, target: Seq<u8>, out: Seq<ResponseMessageV>) -> Result<Seq<ResponseMessageV>, Seq<char>>
    decreases s.len() - i,
{
    if i < 0 || i >= s.len() {
        Ok(out)
    } else {
        match s[i] {
            XmlStepV::Start(ns, name, attrs) => if is_message_tag(ns, name, target) {
                let (r, j) = message_spec(s, i + 1, message_start());
                match r {
                    Err(e) => Err(e),
                    Ok(st) => if i < j <= s.len() {
                        messages_spec(s, j, target, out.push(finished_message(st, response_class(attrs))))
                    } else {
                        Ok(out)
                    },
                }
            } else {
                messages_spec(s, i + 1, target, out)
            },
            XmlStepV::Eof => Ok(out),
            XmlStepV::Failed(m) => Err(m),
            _ => messages_spec(s, i + 1, target, out),
        }
    }
}

/// The response messages of a reply whose element name is
/// `response_message_local`, in order; the text around tags is kept.
pub fn parse_response_messages(body: &[u8], response_message_local: &[u8]) -> (r: Result<Vec<ResponseMessage>, EwsError>)
    ensures
        match messages_spec(document_steps(body@, false), 0, response_message_local@, Seq::empty()) {
            Ok(v) => r matches Ok(x) && x@.len() == v.len() && forall|j: int| 0 <= j < v.len() ==> message_matches(#[trigger] x@[j], v[j]),
            Err(e) => r matches Err(EwsError::Xml(m)) && m@ == e,
        },
{
    let steps = xml_steps(body, false);
    let ghost s = steps_view(steps@);
    let ghost target = response_message_local@;
    let n = steps.len();
    let mut out: Vec<ResponseMessage> = Vec::new();
    let ghost mut outv: Seq<ResponseMessageV> = Seq::empty();
    let mut k: usize = 0;
    loop
        invariant
            s == steps_view(steps@),
            s == document_steps(body@, false),
            target == response_message_local@,
            s.len() == steps@.len(),
            n == s.len(),
            well_ended(s),
            k < s.len(),
            out@.len() == outv.len(),
            forall|j: int| 0 <= j < outv.len() ==> message_matches(#[trigger] out@[j], outv[j]),
            messages_spec(s, 0, target, Seq::empty()) == messages_spec(s, k as int, target, outv),
        decreases s.len() - k,
    {
        assert(s[k as int] == steps@[k as int]@);
        match &steps[k] {
            XmlStep::Eof => {
                return Ok(out);
            },
            XmlStep::Failed(m) => {
                return Err(EwsError::Xml(m.clone()));
            },
            XmlStep::Start(ns, name, attrs) => {
                proof { lemma_next(s, k as int); }
                let l = local_name_of(name.as_str());
                if classify(ns) == Ns::Messages && bytes_equal_ignore_case(l.as_str().as_bytes(), response_message_local) {
                    let class = match attr_value(attrs.as_str(), "ResponseClass") {
                        Some(c) => c,
                        None => "Success".to_owned(),
                    };
                    match read_message(&steps, k + 1) {
                        Ok((code, text, inner, j)) => {
                            let success = str_eq(class.as_str(), "Success") || str_eq(class.as_str(), "Warning");
                            let wrapped = wrap_inner_with_namespaces(inner.as_str());
                            let m = ResponseMessage { success, response_code: ResponseCode::parse(code.as_str()), message_text: text, inner_xml: wrapped };
                            let ghost mv = finished_message(message_spec(s, k + 1, message_start()).0->Ok_0, response_class(attrs@));
                            let ghost prev = out@;
                            out.push(m);
                            proof {
                                outv = outv.push(mv);
                                assert forall|x: int| 0 <= x < outv.len() implies message_matches(#[trigger] out@[x], outv[x]) by {
                                    if x < outv.len() - 1 {
                                        assert(out@[x] == prev[x]);
                                    }
                                }
                            }
                            k = j;
                        },
                        Err(e) => {
                            return Err(EwsError::Xml(e));
                        },
                    }
                } else {
                    k = k + 1;
                }
            },
            _ => {
                proof { lemma_next(s, k as int); }
                k = k + 1;
            },
        }
    }
}


// ---------------------------------------------------------------------------
// Folder synchronisation

/// A change reported by `SyncFolderItems`.
#[derive(Debug, Clone)]
pub enum SyncChange {
    Create { id: ItemId, element: String },
    Update { id: ItemId, element: String },
    Delete { id: ItemId },
    ReadFlagChange { id: ItemId, is_read: bool },
}

pub enum SyncChangeV {
    Create(Seq<char>, Seq<char>, Seq<char>),
    Update(Seq<char>, Seq<char>, Seq<char>),
    Delete(Seq<char>, Seq<char>),
    ReadFlagChange(Seq<char>, Seq<char>, bool),
}

impl View for SyncChange {
    type V = SyncChangeV;

    open spec fn view(&self) -> SyncChangeV {
        match self {
            SyncChange::Create { id, element } => SyncChangeV::Create(id.id@, id.change_key@, element@),
            SyncChange::Update { id, element } => SyncChangeV::Update(id.id@, id.change_key@, element@),
            SyncChange::Delete { id } => SyncChangeV::Delete(id.id@, id.change_key@),
            SyncChange::ReadFlagChange { id, is_read } => SyncChangeV::ReadFlagChange(id.id@, id.change_key@, *is_read),
        }
    }
}

/// A `SyncFolderItems` reply.
#[derive(Debug, Clone)]
pub struct SyncFolderItemsResponse {
    pub sync_state: String,
    pub more: bool,
    pub changes: Vec<SyncChange>,
}

pub struct SyncV {
    pub sync_state: Seq<char>,
    pub more: bool,
    pub changes: Seq<SyncChangeV>,
}

pub open spec fn changes_view(v: Seq<SyncChange>) -> Seq<SyncChangeV> {
    v.map_values(|c: SyncChange| c@)
}

impl View for SyncFolderItemsResponse {
    type V = SyncV;

    open spec fn view(&self) -> SyncV {
        SyncV { sync_state: self.sync_state@, more: self.more, changes: changes_view(self.changes@) }
    }
}

#[derive(Debug, Clone, Copy, PartialEq, Eq, Structural)]
pub enum SyncText {
    SyncState,
    IncludesLast,
}

/// What has been read of a `SyncFolderItems` reply.
pub struct SyncSt {
    pub out: SyncV,
    pub text: Option<SyncText>,
    pub in_changes: bool,
    pub current: Option<SyncChangeV>,
    pub reading_is_read: bool,
    pub pending_is_read: Option<bool>,
}

/// A change with the `Id` and `ChangeKey` of an `ItemId` tag taken in.
pub open spec fn change_with_id(c: SyncChangeV, attrs: Seq<char>) -> SyncChangeV {
    match c {
        SyncChangeV::Create(id, ck, el) => {
            let (i, k) = id_attrs(attrs_of(attrs), id, ck);
            SyncChangeV::Create(i, k, el)
        },
        SyncChangeV::Update(id, ck, el) => {
            let (i, k) = id_attrs(attrs_of(attrs), id, ck);
            SyncChangeV::Update(i, k, el)
        },
        SyncChangeV::Delete(id, ck) => {
            let (i, k) = id_attrs(attrs_of(attrs), id, ck);
            SyncChangeV::Delete(i, k)
        },
        SyncChangeV::ReadFlagChange(id, ck, r) => {
            let (i, k) = id_attrs(attrs_of(attrs), id, ck);
            SyncChangeV::ReadFlagChange(i, k, r)
        },
    }
}

pub open spec fn sync_change_tag(st: SyncSt, l: Seq<char>, attrs: Seq<char>) -> SyncSt {
    if eq_ignore_case(l, "Create"@) {
        SyncSt { current: Some(SyncChangeV::Create(Seq::empty(), Seq::empty(), Seq::empty())), ..st }
    } else if eq_ignore_case(l, "Update"@) {
        SyncSt { current: Some(SyncChangeV::Update(Seq::empty(), Seq::empty(), Seq::empty())), ..st }
    } else if eq_ignore_case(l, "Delete"@) {
        SyncSt { current: Some(SyncChangeV::Delete(Seq::empty(), Seq::empty())), ..st }
    } else if eq_ignore_case(l, "ReadFlagChange"@) {
        SyncSt { current: Some(SyncChangeV::ReadFlagChange(Seq::empty(), Seq::empty(), false)), pending_is_read: None, ..st }
    } else if eq_ignore_case(l, "ItemId"@) {
        match st.current {
            Some(c) => SyncSt { current: Some(change_with_id(c, attrs)), ..st },
            None => st,
        }
    } else if eq_ignore_case(l, "IsRead"@) {
        SyncSt { reading_is_read: true, ..st }
    } else if item_element(l) {
        match st.current {
            Some(SyncChangeV::Create(id, ck, _)) => SyncSt { current: Some(SyncChangeV::Create(id, ck, l)), ..st },
            Some(SyncChangeV::Update(id, ck, _)) => SyncSt { current: Some(SyncChangeV::Update(id, ck, l)), ..st },
            _ => st,
        }
    } else {
        st
    }
}

pub open spec fn sync_tag(st: SyncSt, ns: Option<Seq<char>>, name: Seq<char>, attrs: Seq<char>) -> SyncSt {
    let l = local_name(name);
    if ews_ns(ns) == Ns::Messages && eq_ignore_case(l, "SyncState"@) {
        SyncSt { text: Some(SyncText::SyncState), ..st }
    } else if ews_ns(ns) == Ns::Messages && eq_ignore_case(l, "IncludesLastItemInRange"@) {
        SyncSt { text: Some(SyncText::IncludesLast), ..st }
    } else if ews_ns(ns) == Ns::Messages && eq_ignore_case(l, "Changes"@) {
        SyncSt { in_changes: true, ..st }
    } else if st.in_changes && ews_ns(ns) == Ns::Types {
        sync_change_tag(st, l, attrs)
    } else {
        st
    }
}

/// A finished change, with the read flag read inside it.
pub open spec fn sync_close_change(st: SyncSt) -> SyncSt {
    match st.current {
        Some(c) => {
            let (c, pending) = match c {
                SyncChangeV::ReadFlagChange(id, ck, r) => match st.pending_is_read {
                    Some(v) => (SyncChangeV::ReadFlagChange(id, ck, v), None),
                    None => (c, st.pending_is_read),
                },
                _ => (c, st.pending_is_read),
            };
            SyncSt { out: SyncV { changes: st.out.changes.push(c), ..st.out }, current: None, pending_is_read: pending, ..st }
        },
        None => st,
    }
}

pub open spec fn sync_end(st: SyncSt, name: Seq<char>) -> SyncSt {
    let l = local_name(name);
    let st = if eq_ignore_case(l, "create"@) || eq_ignore_case(l, "update"@) || eq_ignore_case(l, "delete"@) || eq_ignore_case(l, "readflagchange"@) {
        sync_close_change(st)
    } else if eq_ignore_case(l, "isread"@) {
        SyncSt { reading_is_read: false, ..st }
    } else if eq_ignore_case(l, "changes"@) {
        SyncSt { in_changes: false, ..st }
    } else {
        st
    };
    SyncSt { text: None, ..st }
}

pub open spec fn sync_step(st: SyncSt, e: XmlStepV) -> SyncSt {
    match e {
        XmlStepV::Start(ns, name, attrs) => sync_tag(st, ns, name, attrs),
        XmlStepV::Empty(ns, name, attrs) => SyncSt { text: None, ..sync_tag(st, ns, name, attrs) },
        XmlStepV::End(_, name) => sync_end(st, name),
        XmlStepV::Text(t) => {
            let st = if st.reading_is_read { SyncSt { pending_is_read: Some(truthy(t)), ..st } } else { st };
            match st.text {
                Some(SyncText::SyncState) => SyncSt { out: SyncV { sync_state: t, ..st.out }, ..st },
                Some(SyncText::IncludesLast) => SyncSt { out: SyncV { more: !truthy(t), ..st.out }, ..st },
                None => st,
            }
        },
        XmlStepV::CData(t) => if st.text == Some(SyncText::SyncState) {
            SyncSt { out: SyncV { sync_state: t, ..st.out }, ..st }
        } else {
            st
        },
        _ => st,
    }
}

pub open spec fn sync_spec(s: Seq<XmlStepV>, i: int, st: SyncSt) -> Result<SyncV, Seq<char>>
    decreases s.len() - i,
{
    if i < 0 || i >= s.len() {
        Ok(st.out)
    } else {
        match s[i] {
            XmlStepV::Eof => Ok(st.out),
            XmlStepV::Failed(m) => Err(m),
            _ => sync_spec(s, i + 1, sync_step(st, s[i])),
        }
    }
}

pub open spec fn sync_start() -> SyncSt {
    SyncSt {
        out: SyncV { sync_state: Seq::empty(), more: false, changes: Seq::empty() },
        text: None,
        in_changes: false,
        current: None,
        reading_is_read: false,
        pending_is_read: None,
    }
}

struct SyncState {
    out: SyncFolderItemsResponse,
    text: Option<SyncText>,
    in_changes: bool,
    current: Option<SyncChange>,
    reading_is_read: bool,
    pending_is_read: Option<bool>,
}

pub open spec fn opt_change_view(c: Option<SyncChange>) -> Option<SyncChangeV> {
    match c {
        Some(x) => Some(x@),
        None => None,
    }
}

impl View for SyncState {
    type V = SyncSt;

    closed spec fn view(&self) -> SyncSt {
        SyncSt {
            out: self.out@,
            text: self.text,
            in_changes: self.in_changes,
            current: opt_change_view(self.current),
            reading_is_read: self.reading_is_read,
            pending_is_read: self.pending_is_read,
        }
    }
}

fn change_take_id(c: SyncChange, attrs: &str) -> (r: SyncChange)
    ensures
        r@ == change_with_id(c@, attrs@),
{
    match c {
        SyncChange::Create { id, element } => {
            let (i, k) = capture_id_attrs(attrs, id.id, id.change_key);
            SyncChange::Create { id: ItemId { id: i, change_key: k }, element }
        },
        SyncChange::Update { id, element } => {
            let (i, k) = capture_id_attrs(attrs, id.id, id.change_key);
            SyncChange::Update { id: ItemId { id: i, change_key: k }, element }
        },
        SyncChange::Delete { id } => {
            let (i, k) = capture_id_attrs(attrs, id.id, id.change_key);
            SyncChange::Delete { id: ItemId { id: i, change_key: k } }
        },
        SyncChange::ReadFlagChange { id, is_read } => {
            let (i, k) = capture_id_attrs(attrs, id.id, id.change_key);
            SyncChange::ReadFlagChange { id: ItemId { id: i, change_key: k }, is_read }
        },
    }
}

fn no_id() -> (r: ItemId)
    ensures
        r.id@ == Seq::<char>::empty(),
        r.change_key@ == Seq::<char>::empty(),
{
    ItemId { id: String::new(), change_key: String::new() }
}

fn apply_sync_tag(st: SyncState, ns: &Option<String>, name: &str, attrs: &str) -> (r: SyncState)
    ensures
        r@ == sync_tag(st@, opt_string_view(*ns), name@, attrs@),
{
    let mut st = st;
    let l = local_name_of(name);
    let l = l.as_str();
    let kind = classify(ns);
    if kind == Ns::Messages && str_eq_ignore_case(l, "SyncState") {
        st.text = Some(SyncText::SyncState);
    } else if kind == Ns::Messages && str_eq_ignore_case(l, "IncludesLastItemInRange") {
        st.text = Some(SyncText::IncludesLast);
    } else if kind == Ns::Messages && str_eq_ignore_case(l, "Changes") {
        st.in_changes = true;
    } else if st.in_changes && kind == Ns::Types {
        if str_eq_ignore_case(l, "Create") {
            st.current = Some(SyncChange::Create { id: no_id(), element: String::new() });
        } else if str_eq_ignore_case(l, "Update") {
            st.current = Some(SyncChange::Update { id: no_id(), element: String::new() });
        } else if str_eq_ignore_case(l, "Delete") {
            st.current = Some(SyncChange::Delete { id: no_id() });
        } else if str_eq_ignore_case(l, "ReadFlagChange") {
            st.current = Some(SyncChange::ReadFlagChange { id: no_id(), is_read: false });
            st.pending_is_read = None;
        } else if str_eq_ignore_case(l, "ItemId") {
            let c = st.current.take();
            st.current = match c {
                Some(c) => Some(change_take_id(c, attrs)),
                None => None,
            };
        } else if str_eq_ignore_case(l, "IsRead") {
            st.reading_is_read = true;
        } else if is_item_element(l) {
            let c = st.current.take();
            st.current = match c {
                Some(SyncChange::Create { id, .. }) => Some(SyncChange::Create { id, element: l.to_owned() }),
                Some(SyncChange::Update { id, .. }) => Some(SyncChange::Update { id, element: l.to_owned() }),
                other => other,
            };
        }
    }
    st
}

fn apply_sync_end(st: SyncState, name: &str) -> (r: SyncState)
    ensures
        r@ == sync_end(st@, name@),
{
    let mut st = st;
    let l = local_name_of(name);
    let l = l.as_str();
    if str_eq_ignore_case(l, "create") || str_eq_ignore_case(l, "update") || str_eq_ignore_case(l, "delete") || str_eq_ignore_case(l, "readflagchange") {
        let c = st.current.take();
        match c {
            Some(change) => {
                let change = match change {
                    SyncChange::ReadFlagChange { id, is_read } => match st.pending_is_read.take() {
                        Some(v) => SyncChange::ReadFlagChange { id, is_read: v },
                        None => SyncChange::ReadFlagChange { id, is_read },
                    },
                    other => other,
                };
                let ghost before = changes_view(st.out.changes@);
                let ghost cv = change@;
                st.out.changes.push(change);
                assert(changes_view(st.out.changes@) =~= before.push(cv));
            },
            None => {},
        }
    } else if str_eq_ignore_case(l, "isread") {
        st.reading_is_read = false;
    } else if str_eq_ignore_case(l, "changes") {
        st.in_changes = false;
    }
    st.text = None;
    st
}

fn apply_sync_step(st: SyncState, e: &XmlStep) -> (r: SyncState)
    ensures
        r@ == sync_step(st@, e@),
{
    let mut st = st;
    match e {
        XmlStep::Start(ns, name, attrs) => apply_sync_tag(st, ns, name.as_str(), attrs.as_str()),
        XmlStep::Empty(ns, name, attrs) => {
            let mut st = apply_sync_tag(st, ns, name.as_str(), attrs.as_str());
            st.text = None;
            st
        },
        XmlStep::End(_, name) => apply_sync_end(st, name.as_str()),
        XmlStep::Text(t) => {
            if st.reading_is_read {
                st.pending_is_read = Some(is_truthy(t.as_str()));
            }
            match st.text {
                Some(SyncText::SyncState) => {
                    st.out.sync_state = t.clone();
                },
                Some(SyncText::IncludesLast) => {
                    st.out.more = !is_truthy(t.as_str());
                },
                None => {},
            }
            st
        },
        XmlStep::CData(t) => {
            if st.text == Some(SyncText::SyncState) {
                st.out.sync_state = t.clone();
            }
            st
        },
        _ => st,
    }
}

/// The sync state, paging and changes of a `SyncFolderItems` reply.
pub fn parse_sync_folder_items_response(body: &[u8]) -> (r: Result<SyncFolderItemsResponse, EwsError>)
    ensures
        match sync_spec(document_steps(body@, true), 0, sync_start()) {
            Ok(v) => r matches Ok(x) && x@ == v,
            Err(e) => r matches Err(EwsError::Xml(m)) && m@ == e,
        },
{
    let steps = xml_steps(body, true);
    let ghost s = steps_view(steps@);
    let n = steps.len();
    let mut st = SyncState {
        out: SyncFolderItemsResponse { sync_state: String::new(), more: false, changes: Vec::new() },
        text: None,
        in_changes: false,
        current: None,
        reading_is_read: false,
        pending_is_read: None,
    };
    assert(changes_view(st.out.changes@) =~= Seq::<SyncChangeV>::empty());
    let mut k: usize = 0;
    loop
        invariant
            s == steps_view(steps@),
            s == document_steps(body@, true),
            s.len() == steps@.len(),
            n == s.len(),
            well_ended(s),
            k < s.len(),
            sync_spec(s, 0, sync_start()) == sync_spec(s, k as int, st@),
        decreases s.len() - k,
    {
        assert(s[k as int] == steps@[k as int]@);
        match &steps[k] {
            XmlStep::Eof => {
                return Ok(st.out);
            },
            XmlStep::Failed(m) => {
                return Err(EwsError::Xml(m.clone()));
            },
            _ => {
                proof { lemma_next(s, k as int); }
                st = apply_sync_step(st, &steps[k]);
                k = k + 1;
            },
        }
    }
}


// ---------------------------------------------------------------------------
// Messages

/// A message read from the inner markup of a `GetItem` response message.
#[derive(Debug, Clone, Default)]
pub struct MessageItem {
    pub element: String,
    pub id: ItemId,
    pub parent_folder_id: Option<String>,
    pub mime_content: Option<String>,
    pub mime_charset: Option<String>,
    pub subject: Option<String>,
    pub date_time_received: Option<String>,
    pub is_read: Option<bool>,
    pub is_draft: Option<bool>,
    pub is_read_receipt_requested: Option<bool>,
    pub categories: Vec<String>,
    pub flag_status: Option<String>,
}

pub struct MessageItemV {
    pub element: Seq<char>,
    pub id: Seq<char>,
    pub change_key: Seq<char>,
    pub parent_folder_id: Option<Seq<char>>,
    pub mime_content: Option<Seq<char>>,
    pub mime_charset: Option<Seq<char>>,
    pub subject: Option<Seq<char>>,
    pub date_time_received: Option<Seq<char>>,
    pub is_read: Option<bool>,
    pub is_draft: Option<bool>,
    pub is_read_receipt_requested: Option<bool>,
    pub categories: Seq<Seq<char>>,
    pub flag_status: Option<Seq<char>>,
}

pub open spec fn strings_view(v: Seq<String>) -> Seq<Seq<char>> {
    v.map_values(|s: String| s@)
}

impl View for MessageItem {
    type V = MessageItemV;

    open spec fn view(&self) -> MessageItemV {
        MessageItemV {
            element: self.element@,
            id: self.id.id@,
            change_key: self.id.change_key@,
            parent_folder_id: opt_string_view(self.parent_folder_id),
            mime_content: opt_string_view(self.mime_content),
            mime_charset: opt_string_view(self.mime_charset),
            subject: opt_string_view(self.subject),
            date_time_received: opt_string_view(self.date_time_received),
            is_read: self.is_read,
            is_draft: self.is_draft,
            is_read_receipt_requested: self.is_read_receipt_requested,
            categories: strings_view(self.categories@),
            flag_status: opt_string_view(self.flag_status),
        }
    }
}

#[derive(Debug, Clone, Copy, PartialEq, Eq, Structural)]
pub enum MessageTarget {
    Mime,
    Subject,
    Received,
    IsRead,
    IsDraft,
    ReadReceipt,
    Category,
    FlagStatus,
}

/// What has been read of a message.
pub struct MsgSt {
    pub item: MessageItemV,
    pub current: Option<MessageTarget>,
    pub mime_charset: Option<Seq<char>>,
    pub categories_open: bool,
    pub in_flag: bool,
}

pub open spec fn msg_start() -> MsgSt {
    MsgSt {
        item: MessageItemV {
            element: Seq::empty(),
            id: Seq::empty(),
            change_key: Seq::empty(),
            parent_folder_id: None,
            mime_content: None,
            mime_charset: None,
            subject: None,
            date_time_received: None,
            is_read: None,
            is_draft: None,
            is_read_receipt_requested: None,
            categories: Seq::empty(),
            flag_status: None,
        },
        current: None,
        mime_charset: None,
        categories_open: false,
        in_flag: false,
    }
}

pub open spec fn msg_types_tag(st: MsgSt, l: Seq<char>, attrs: Seq<char>) -> MsgSt {
    let it = st.item;
    if eq_ignore_case(l, "ItemId"@) {
        let (id, ck) = id_attrs(attrs_of(attrs), it.id, it.change_key);
        MsgSt { item: MessageItemV { id, change_key: ck, ..it }, ..st }
    } else if eq_ignore_case(l, "ParentFolderId"@) {
        MsgSt { item: MessageItemV { parent_folder_id: parent_of(attrs, it.parent_folder_id), ..it }, ..st }
    } else if eq_ignore_case(l, "MimeContent"@) {
        MsgSt { mime_charset: attr_in(attrs_of(attrs), "CharacterSet"@), current: Some(MessageTarget::Mime), ..st }
    } else if eq_ignore_case(l, "Subject"@) {
        MsgSt { current: Some(MessageTarget::Subject), ..st }
    } else if eq_ignore_case(l, "DateTimeReceived"@) {
        MsgSt { current: Some(MessageTarget::Received), ..st }
    } else if eq_ignore_case(l, "IsRead"@) {
        MsgSt { current: Some(MessageTarget::IsRead), ..st }
    } else if eq_ignore_case(l, "IsDraft"@) {
        MsgSt { current: Some(MessageTarget::IsDraft), ..st }
    } else if eq_ignore_case(l, "IsReadReceiptRequested"@) {
        MsgSt { current: Some(MessageTarget::ReadReceipt), ..st }
    } else if eq_ignore_case(l, "Categories"@) {
        MsgSt { categories_open: true, ..st }
    } else if st.categories_open && eq_ignore_case(l, "String"@) {
        MsgSt { current: Some(MessageTarget::Category), ..st }
    } else if eq_ignore_case(l, "Flag"@) {
        MsgSt { in_flag: true, ..st }
    } else if st.in_flag && eq_ignore_case(l, "FlagStatus"@) {
        MsgSt { current: Some(MessageTarget::FlagStatus), ..st }
    } else {
        MsgSt { current: None, ..st }
    }
}

pub open spec fn msg_tag(st: MsgSt, ns: Option<Seq<char>>, name: Seq<char>, attrs: Seq<char>) -> MsgSt {
    let l = local_name(name);
    if st.item.element.len() == 0 && item_element(l) {
        MsgSt { item: MessageItemV { element: l, ..st.item }, ..st }
    } else if ews_ns(ns) == Ns::Types {
        msg_types_tag(st, l, attrs)
    } else {
        st
    }
}

/// Text added to an optional text.
pub open spec fn appended(o: Option<Seq<char>>, t: Seq<char>) -> Option<Seq<char>> {
    match o {
        Some(x) => Some(x + t),
        None => Some(t),
    }
}

pub open spec fn msg_text(st: MsgSt, t: Seq<char>) -> MsgSt {
    let it = st.item;
    match st.current {
        Some(MessageTarget::Mime) => MsgSt { item: MessageItemV { mime_content: appended(it.mime_content, t), mime_charset: st.mime_charset, ..it }, ..st },
        Some(MessageTarget::Subject) => MsgSt { item: MessageItemV { subject: Some(t), ..it }, ..st },
        Some(MessageTarget::Received) => MsgSt { item: MessageItemV { date_time_received: Some(t), ..it }, ..st },
        Some(MessageTarget::IsRead) => MsgSt { item: MessageItemV { is_read: Some(truthy(t)), ..it }, ..st },
        Some(MessageTarget::IsDraft) => MsgSt { item: MessageItemV { is_draft: Some(truthy(t)), ..it }, ..st },
        Some(MessageTarget::ReadReceipt) => MsgSt { item: MessageItemV { is_read_receipt_requested: Some(truthy(t)), ..it }, ..st },
        Some(MessageTarget::Category) => MsgSt { item: MessageItemV { categories: it.categories.push(t), ..it }, ..st },
        Some(MessageTarget::FlagStatus) => MsgSt { item: MessageItemV { flag_status: Some(t), ..it }, ..st },
        None => st,
    }
}

pub open spec fn msg_step(st: MsgSt, e: XmlStepV) -> MsgSt {
    match e {
        XmlStepV::Start(ns, name, attrs) => msg_tag(st, ns, name, attrs),
        XmlStepV::Empty(ns, name, attrs) => MsgSt { current: None, ..msg_tag(st, ns, name, attrs) },
        XmlStepV::End(_, name) => {
            let l = local_name(name);
            let st = if eq_ignore_case(l, "categories"@) {
                MsgSt { categories_open: false, ..st }
            } else if eq_ignore_case(l, "flag"@) {
                MsgSt { in_flag: false, ..st }
            } else {
                st
            };
            MsgSt { current: None, ..st }
        },
        XmlStepV::Text(t) => msg_text(st, t),
        XmlStepV::CData(t) => if st.current == Some(MessageTarget::Mime) {
            MsgSt { item: MessageItemV { mime_content: appended(st.item.mime_content, t), mime_charset: st.mime_charset, ..st.item }, ..st }
        } else {
            st
        },
        _ => st,
    }
}

pub open spec fn msg_spec(s: Seq<XmlStepV>, i: int, st: MsgSt) -> Result<MessageItemV, Seq<char>>
    decreases s.len() - i,
{
    if i < 0 || i >= s.len() {
        Ok(st.item)
    } else {
        match s[i] {
            XmlStepV::Eof => Ok(st.item),
            XmlStepV::Failed(m) => Err(m),
            _ => msg_spec(s, i + 1, msg_step(st, s[i])),
        }
    }
}

struct MsgState {
    item: MessageItem,
    current: Option<MessageTarget>,
    mime_charset: Option<String>,
    categories_open: bool,
    in_flag: bool,
}

impl View for MsgState {
    type V = MsgSt;

    closed spec fn view(&self) -> MsgSt {
        MsgSt {
            item: self.item@,
            current: self.current,
            mime_charset: opt_string_view(self.mime_charset),
            categories_open: self.categories_open,
            in_flag: self.in_flag,
        }
    }
}

fn append_opt(o: Option<String>, t: &str) -> (r: Option<String>)
    ensures
        opt_string_view(r) == appended(opt_string_view(o), t@),
{
    match o {
        Some(mut x) => {
            x.append(t);
            Some(x)
        },
        None => Some(t.to_owned()),
    }
}

fn clone_opt(o: &Option<String>) -> (r: Option<String>)
    ensures
        opt_string_view(r) == opt_string_view(*o),
{
    match o {
        Some(x) => Some(x.clone()),
        None => None,
    }
}

fn push_string(v: &mut Vec<String>, t: String)
    ensures
        strings_view(final(v)@) == strings_view(old(v)@).push(t@),
{
    let ghost before = strings_view(v@);
    let ghost tv = t@;
    v.push(t);
    assert(strings_view(v@) =~= before.push(tv));
}

#[verifier::rlimit(40)]
fn apply_msg_types_tag(st: MsgState, l: &str, attrs: &str) -> (r: MsgState)
    ensures
        r@ == msg_types_tag(st@, l@, attrs@),
{
    let mut st = st;
    if str_eq_ignore_case(l, "ItemId") {
        let (id, ck) = capture_id_attrs(attrs, st.item.id.id, st.item.id.change_key);
        st.item.id = ItemId { id, change_key: ck };
    } else if str_eq_ignore_case(l, "ParentFolderId") {
        let (pid, _ck) = capture_id_attrs(attrs, String::new(), String::new());
        if !pid.as_str().is_empty() {
            st.item.parent_folder_id = Some(pid);
        }
    } else if str_eq_ignore_case(l, "MimeContent") {
        st.mime_charset = attr_value(attrs, "CharacterSet");
        st.current = Some(MessageTarget::Mime);
    } else if str_eq_ignore_case(l, "Subject") {
        st.current = Some(MessageTarget::Subject);
    } else if str_eq_ignore_case(l, "DateTimeReceived") {
        st.current = Some(MessageTarget::Received);
    } else if str_eq_ignore_case(l, "IsRead") {
        st.current = Some(MessageTarget::IsRead);
    } else if str_eq_ignore_case(l, "IsDraft") {
        st.current = Some(MessageTarget::IsDraft);
    } else if str_eq_ignore_case(l, "IsReadReceiptRequested") {
        st.current = Some(MessageTarget::ReadReceipt);
    } else if str_eq_ignore_case(l, "Categories") {
        st.categories_open = true;
    } else if st.categories_open && str_eq_ignore_case(l, "String") {
        st.current = Some(MessageTarget::Category);
    } else if str_eq_ignore_case(l, "Flag") {
        st.in_flag = true;
    } else if st.in_flag && str_eq_ignore_case(l, "FlagStatus") {
        st.current = Some(MessageTarget::FlagStatus);
    } else {
        st.current = None;
    }
    st
}

fn apply_msg_tag(st: MsgState, ns: &Option<String>, name: &str, attrs: &str) -> (r: MsgState)
    ensures
        r@ == msg_tag(st@, opt_string_view(*ns), name@, attrs@),
{
    let mut st = st;
    let l = local_name_of(name);
    if st.item.element.as_str().is_empty() && is_item_element(l.as_str()) {
        st.item.element = l;
        st
    } else if classify(ns) == Ns::Types {
        apply_msg_types_tag(st, l.as_str(), attrs)
    } else {
        st
    }
}

#[verifier::rlimit(40)]
fn apply_msg_text(st: MsgState, t: &str) -> (r: MsgState)
    ensures
        r@ == msg_text(st@, t@),
{
    let mut st = st;
    match st.current {
        Some(MessageTarget::Mime) => {
            let m = st.item.mime_content.take();
            st.item.mime_content = append_opt(m, t);
            st.item.mime_charset = clone_opt(&st.mime_charset);
        },
        Some(MessageTarget::Subject) => {
            st.item.subject = Some(t.to_owned());
        },
        Some(MessageTarget::Received) => {
            st.item.date_time_received = Some(t.to_owned());
        },
        Some(MessageTarget::IsRead) => {
            st.item.is_read = Some(is_truthy(t));
        },
        Some(MessageTarget::IsDraft) => {
            st.item.is_draft = Some(is_truthy(t));
        },
        Some(MessageTarget::ReadReceipt) => {
            st.item.is_read_receipt_requested = Some(is_truthy(t));
        },
        Some(MessageTarget::Category) => {
            push_string(&mut st.item.categories, t.to_owned());
        },
        Some(MessageTarget::FlagStatus) => {
            st.item.flag_status = Some(t.to_owned());
        },
        None => {},
    }
    st
}

fn apply_msg_step(st: MsgState, e: &XmlStep) -> (r: MsgState)
    ensures
        r@ == msg_step(st@, e@),
{
    let mut st = st;
    match e {
        XmlStep::Start(ns, name, attrs) => apply_msg_tag(st, ns, name.as_str(), attrs.as_str()),
        XmlStep::Empty(ns, name, attrs) => {
            let mut st = apply_msg_tag(st, ns, name.as_str(), attrs.as_str());
            st.current = None;
            st
        },
        XmlStep::End(_, name) => {
            let l = local_name_of(name.as_str());
            if str_eq_ignore_case(l.as_str(), "categories") {
                st.categories_open = false;
            } else if str_eq_ignore_case(l.as_str(), "flag") {
                st.in_flag = false;
            }
            st.current = None;
            st
        },
        XmlStep::Text(t) => apply_msg_text(st, t.as_str()),
        XmlStep::CData(t) => {
            if st.current == Some(MessageTarget::Mime) {
                let m = st.item.mime_content.take();
                st.item.mime_content = append_opt(m, t.as_str());
                st.item.mime_charset = clone_opt(&st.mime_charset);
            }
            st
        },
        _ => st,
    }
}

/// A message read from the inner markup of a response message.
pub fn parse_message_item(inner_xml: &str) -> (r: Result<MessageItem, EwsError>)
    ensures
        match msg_spec(text_steps(inner_xml@, false), 0, msg_start()) {
            Ok(v) => r matches Ok(x) && x@ == v,
            Err(e) => r matches Err(EwsError::Xml(m)) && m@ == e,
        },
{
    let steps = xml_steps(inner_xml.as_bytes(), false);
    let ghost s = steps_view(steps@);
    let n = steps.len();
    let mut st = MsgState {
        item: MessageItem {
            element: String::new(),
            id: no_id(),
            parent_folder_id: None,
            mime_content: None,
            mime_charset: None,
            subject: None,
            date_time_received: None,
            is_read: None,
            is_draft: None,
            is_read_receipt_requested: None,
            categories: Vec::new(),
            flag_status: None,
        },
        current: None,
        mime_charset: None,
        categories_open: false,
        in_flag: false,
    };
    assert(strings_view(st.item.categories@) =~= Seq::<Seq<char>>::empty());
    let mut k: usize = 0;
    loop
        invariant
            s == steps_view(steps@),
            s == text_steps(inner_xml@, false),
            s.len() == steps@.len(),
            n == s.len(),
            well_ended(s),
            k < s.len(),
            msg_spec(s, 0, msg_start()) == msg_spec(s, k as int, st@),
        decreases s.len() - k,
    {
        assert(s[k as int] == steps@[k as int]@);
        match &steps[k] {
            XmlStep::Eof => {
                return Ok(st.item);
            },
            XmlStep::Failed(m) => {
                return Err(EwsError::Xml(m.clone()));
            },
            _ => {
                proof { lemma_next(s, k as int); }
                st = apply_msg_step(st, &steps[k]);
                k = k + 1;
            },
        }
    }
}


// ---------------------------------------------------------------------------
// Attachments

/// An attachment listed in an item.
#[derive(Debug, Clone, Default)]
pub struct RawAttachmentRef {
    pub attachment_id: String,
    pub name: Option<String>,
    pub content_type: Option<String>,
    pub is_contact_photo: bool,
    pub is_item_attachment: bool,
}

pub struct AttachmentV {
    pub attachment_id: Seq<char>,
    pub name: Option<Seq<char>>,
    pub content_type: Option<Seq<char>>,
    pub is_contact_photo: bool,
    pub is_item_attachment: bool,
}

impl View for RawAttachmentRef {
    type V = AttachmentV;

    open spec fn view(&self) -> AttachmentV {
        AttachmentV {
            attachment_id: self.attachment_id@,
            name: opt_string_view(self.name),
            content_type: opt_string_view(self.content_type),
            is_contact_photo: self.is_contact_photo,
            is_item_attachment: self.is_item_attachment,
        }
    }
}

pub open spec fn attachments_view(v: Seq<RawAttachmentRef>) -> Seq<AttachmentV> {
    v.map_values(|a: RawAttachmentRef| a@)
}

#[derive(Debug, Clone, Copy, PartialEq, Eq, Structural)]
pub enum AttachmentField {
    Name,
    ContentType,
    IsContactPhoto,
    Content,
}

/// What has been read of an attachment element.
pub struct AttRefSt {
    pub att: AttachmentV,
    pub depth: nat,
    pub current: Option<AttachmentField>,
}

pub open spec fn att_tag(st: AttRefSt, ns: Option<Seq<char>>, name: Seq<char>, attrs: Seq<char>) -> AttRefSt {
    let l = local_name(name);
    if ews_ns(ns) == Ns::Types {
        if eq_ignore_case(l, "AttachmentId"@) {
            match attr_in(attrs_of(attrs), "Id"@) {
                Some(v) => AttRefSt { att: AttachmentV { attachment_id: v, ..st.att }, ..st },
                None => st,
            }
        } else if eq_ignore_case(l, "Name"@) {
            AttRefSt { current: Some(AttachmentField::Name), ..st }
        } else if eq_ignore_case(l, "ContentType"@) {
            AttRefSt { current: Some(AttachmentField::ContentType), ..st }
        } else if eq_ignore_case(l, "IsContactPhoto"@) {
            AttRefSt { current: Some(AttachmentField::IsContactPhoto), ..st }
        } else {
            AttRefSt { current: None, ..st }
        }
    } else {
        st
    }
}

pub open spec fn att_step(st: AttRefSt, e: XmlStepV) -> AttRefSt {
    match e {
        XmlStepV::Start(ns, name, attrs) => att_tag(AttRefSt { depth: st.depth + 1, ..st }, ns, name, attrs),
        XmlStepV::Empty(ns, name, attrs) => AttRefSt { current: None, ..att_tag(st, ns, name, attrs) },
        XmlStepV::End(_, _) => AttRefSt { depth: (st.depth - 1) as nat, current: None, ..st },
        XmlStepV::Text(t) => match st.current {
            Some(AttachmentField::Name) => AttRefSt { att: AttachmentV { name: Some(t), ..st.att }, ..st },
            Some(AttachmentField::ContentType) => AttRefSt { att: AttachmentV { content_type: Some(t), ..st.att }, ..st },
            Some(AttachmentField::IsContactPhoto) => AttRefSt { att: AttachmentV { is_contact_photo: truthy(t), ..st.att }, ..st },
            _ => st,
        },
        _ => st,
    }
}

/// Reading an attachment element whose opening tag was read.
pub open spec fn att_spec(s: Seq<XmlStepV>, i: int, st: AttRefSt) -> (Result<AttachmentV, Seq<char>>, int)
    decreases s.len() - i,
{
    if i < 0 || i >= s.len() {
        (Ok(st.att), i)
    } else {
        match s[i] {
            XmlStepV::Eof => (Ok(st.att), i),
            XmlStepV::Failed(m) => (Err(m), i + 1),
            XmlStepV::End(_, _) => if st.depth <= 1 {
                (Ok(att_step(st, s[i]).att), i + 1)
            } else {
                att_spec(s, i + 1, att_step(st, s[i]))
            },
            _ => att_spec(s, i + 1, att_step(st, s[i])),
        }
    }
}

pub open spec fn att_start(element: Seq<char>) -> AttRefSt {
    AttRefSt {
        att: AttachmentV { attachment_id: Seq::empty(), name: None, content_type: None, is_contact_photo: false, is_item_attachment: eq_ignore_case(element, "itemattachment"@) },
        depth: 1,
        current: None,
    }
}

struct AttRefState {
    att: RawAttachmentRef,
    depth: usize,
    current: Option<AttachmentField>,
}

impl View for AttRefState {
    type V = AttRefSt;

    closed spec fn view(&self) -> AttRefSt {
        AttRefSt { att: self.att@, depth: self.depth as nat, current: self.current }
    }
}

fn apply_att_tag(st: AttRefState, ns: &Option<String>, name: &str, attrs: &str) -> (r: AttRefState)
    ensures
        r@ == att_tag(st@, opt_string_view(*ns), name@, attrs@),
        r.depth == st.depth,
{
    let mut st = st;
    let l = local_name_of(name);
    let l = l.as_str();
    if classify(ns) == Ns::Types {
        if str_eq_ignore_case(l, "AttachmentId") {
            match attr_value(attrs, "Id") {
                Some(v) => {
                    st.att.attachment_id = v;
                },
                None => {},
            }
        } else if str_eq_ignore_case(l, "Name") {
            st.current = Some(AttachmentField::Name);
        } else if str_eq_ignore_case(l, "ContentType") {
            st.current = Some(AttachmentField::ContentType);
        } else if str_eq_ignore_case(l, "IsContactPhoto") {
            st.current = Some(AttachmentField::IsContactPhoto);
        } else {
            st.current = None;
        }
    }
    st
}

fn apply_att_step(st: AttRefState, e: &XmlStep) -> (r: AttRefState)
    requires
        st.depth < usize::MAX,
        e@ is End ==> st.depth >= 1,
    ensures
        r@ == att_step(st@, e@),
        r.depth <= st.depth + 1,
{
    let mut st = st;
    match e {
        XmlStep::Start(ns, name, attrs) => {
            st.depth = st.depth + 1;
            apply_att_tag(st, ns, name.as_str(), attrs.as_str())
        },
        XmlStep::Empty(ns, name, attrs) => {
            let mut st = apply_att_tag(st, ns, name.as_str(), attrs.as_str());
            st.current = None;
            st
        },
        XmlStep::End(_, _) => {
            st.depth = st.depth - 1;
            st.current = None;
            st
        },
        XmlStep::Text(t) => {
            match st.current {
                Some(AttachmentField::Name) => {
                    st.att.name = Some(t.clone());
                },
                Some(AttachmentField::ContentType) => {
                    st.att.content_type = Some(t.clone());
                },
                Some(AttachmentField::IsContactPhoto) => {
                    st.att.is_contact_photo = is_truthy(t.as_str());
                },
                _ => {},
            }
            st
        },
        _ => st,
    }
}

pub open spec fn att_outcome(spec: (Result<AttachmentV, Seq<char>>, int), r: Result<(RawAttachmentRef, usize), String>, i: int, n: int) -> bool {
    match spec.0 {
        Ok(v) => r matches Ok(p) && p.0@ == v && p.1 == spec.1 && i <= p.1 < n,
        Err(e) => r matches Err(m) && m@ == e,
    }
}

/// An attachment element (named `element_local`) read from step `i`.
fn parse_attachment_ref(steps: &Vec<XmlStep>, i: usize, element_local: &str) -> (r: Result<(RawAttachmentRef, usize), String>)
    requires
        well_read(steps_view(steps@), i as int),
    ensures
        att_outcome(att_spec(steps_view(steps@), i as int, att_start(element_local@)), r, i as int, steps@.len() as int),
{
    let ghost s = steps_view(steps@);
    let ghost start = att_start(element_local@);
    let n = steps.len();
    let mut st = AttRefState {
        att: RawAttachmentRef {
            attachment_id: String::new(),
            name: None,
            content_type: None,
            is_contact_photo: false,
            is_item_attachment: str_eq_ignore_case(element_local, "itemattachment"),
        },
        depth: 1,
        current: None,
    };
    let mut k: usize = i;
    loop
        invariant_except_break
            1 <= st.depth <= k - i + 1,
            att_spec(s, i as int, start) == att_spec(s, k as int, st@),
        invariant
            s == steps_view(steps@),
            start == att_start(element_local@),
            s.len() == steps@.len(),
            n == s.len(),
            well_ended(s),
            i <= k < s.len(),
        ensures
            att_spec(s, i as int, start) == (Ok::<AttachmentV, Seq<char>>(st.att@), k as int),
        decreases s.len() - k,
    {
        assert(s[k as int] == steps@[k as int]@);
        match &steps[k] {
            XmlStep::Eof => {
                break;
            },
            XmlStep::Failed(m) => {
                return Err(m.clone());
            },
            XmlStep::End(_, _) => {
                proof { lemma_next(s, k as int); }
                let last = st.depth <= 1;
                st = apply_att_step(st, &steps[k]);
                k = k + 1;
                if last {
                    break;
                }
            },
            _ => {
                proof { lemma_next(s, k as int); }
                st = apply_att_step(st, &steps[k]);
                k = k + 1;
            },
        }
    }
    Ok((st.att, k))
}

/// An attachment of a `GetAttachment` reply, its content in base64.
#[derive(Debug, Clone)]
pub struct GetAttachmentInline {
    pub attachment_id: String,
    pub name: Option<String>,
    pub content_type: Option<String>,
    pub is_contact_photo: bool,
    pub content_base64: String,
}

pub struct InlineV {
    pub attachment_id: Seq<char>,
    pub name: Option<Seq<char>>,
    pub content_type: Option<Seq<char>>,
    pub is_contact_photo: bool,
    pub content_base64: Seq<char>,
}

impl View for GetAttachmentInline {
    type V = InlineV;

    open spec fn view(&self) -> InlineV {
        InlineV {
            attachment_id: self.attachment_id@,
            name: opt_string_view(self.name),
            content_type: opt_string_view(self.content_type),
            is_contact_photo: self.is_contact_photo,
            content_base64: self.content_base64@,
        }
    }
}

pub open spec fn inlines_view(v: Seq<GetAttachmentInline>) -> Seq<InlineV> {
    v.map_values(|a: GetAttachmentInline| a@)
}

pub open spec fn no_inline() -> InlineV {
    InlineV { attachment_id: Seq::empty(), name: None, content_type: None, is_contact_photo: false, content_base64: Seq::empty() }
}

/// What has been read of a `GetAttachment` reply.
pub struct InlineSt {
    pub out: Seq<InlineV>,
    pub current: Option<InlineV>,
    pub target: Option<AttachmentField>,
}

pub open spec fn attachment_element(l: Seq<char>) -> bool {
    eq_ignore_case(l, "FileAttachment"@) || eq_ignore_case(l, "ItemAttachment"@)
}

pub open spec fn inline_tag(st: InlineSt, ns: Option<Seq<char>>, name: Seq<char>, attrs: Seq<char>) -> InlineSt {
    let l = local_name(name);
    if ews_ns(ns) == Ns::Types && attachment_element(l) {
        InlineSt { current: Some(no_inline()), ..st }
    } else if st.current is Some && ews_ns(ns) == Ns::Types {
        let cur = st.current->Some_0;
        if eq_ignore_case(l, "AttachmentId"@) {
            match attr_in(attrs_of(attrs), "Id"@) {
                Some(v) => InlineSt { current: Some(InlineV { attachment_id: v, ..cur }), ..st },
                None => st,
            }
        } else if eq_ignore_case(l, "Name"@) {
            InlineSt { target: Some(AttachmentField::Name), ..st }
        } else if eq_ignore_case(l, "ContentType"@) {
            InlineSt { target: Some(AttachmentField::ContentType), ..st }
        } else if eq_ignore_case(l, "IsContactPhoto"@) {
            InlineSt { target: Some(AttachmentField::IsContactPhoto), ..st }
        } else if eq_ignore_case(l, "Content"@) {
            InlineSt { target: Some(AttachmentField::Content), ..st }
        } else {
            InlineSt { target: None, ..st }
        }
    } else {
        st
    }
}

pub open spec fn inline_text(st: InlineSt, t: Seq<char>) -> InlineSt {
    match st.current {
        Some(cur) => match st.target {
            Some(AttachmentField::Name) => InlineSt { current: Some(InlineV { name: Some(t), ..cur }), ..st },
            Some(AttachmentField::ContentType) => InlineSt { current: Some(InlineV { content_type: Some(t), ..cur }), ..st },
            Some(AttachmentField::IsContactPhoto) => InlineSt { current: Some(InlineV { is_contact_photo: truthy(t), ..cur }), ..st },
            Some(AttachmentField::Content) => InlineSt { current: Some(InlineV { content_base64: cur.content_base64 + t, ..cur }), ..st },
            None => st,
        },
        None => st,
    }
}

pub open spec fn inline_step(st: InlineSt, e: XmlStepV) -> InlineSt {
    match e {
        XmlStepV::Start(ns, name, attrs) => inline_tag(st, ns, name, attrs),
        XmlStepV::Empty(ns, name, attrs) => InlineSt { target: None, ..inline_tag(st, ns, name, attrs) },
        XmlStepV::End(_, name) => {
            let st = if attachment_element(local_name(name)) && st.current is Some {
                InlineSt { out: st.out.push(st.current->Some_0), current: None, ..st }
            } else {
                st
            };
            InlineSt { target: None, ..st }
        },
        XmlStepV::Text(t) => inline_text(st, t),
        XmlStepV::CData(t) => inline_text(st, t),
        _ => st,
    }
}

pub open spec fn inline_spec(s: Seq<XmlStepV>, i: int, st: InlineSt) -> Result<Seq<InlineV>, Seq<char>>
    decreases s.len() - i,
{
    if i < 0 || i >= s.len() {
        Ok(st.out)
    } else {
        match s[i] {
            XmlStepV::Eof => Ok(st.out),
            XmlStepV::Failed(m) => Err(m),
            _ => inline_spec(s, i + 1, inline_step(st, s[i])),
        }
    }
}

struct InlineState {
    out: Vec<GetAttachmentInline>,
    current: Option<GetAttachmentInline>,
    target: Option<AttachmentField>,
}

pub open spec fn opt_inline_view(c: Option<GetAttachmentInline>) -> Option<InlineV> {
    match c {
        Some(x) => Some(x@),
        None => None,
    }
}

impl View for InlineState {
    type V = InlineSt;

    closed spec fn view(&self) -> InlineSt {
        InlineSt { out: inlines_view(self.out@), current: opt_inline_view(self.current), target: self.target }
    }
}

fn apply_inline_tag(st: InlineState, ns: &Option<String>, name: &str, attrs: &str) -> (r: InlineState)
    ensures
        r@ == inline_tag(st@, opt_string_view(*ns), name@, attrs@),
{
    let mut st = st;
    let l = local_name_of(name);
    let l = l.as_str();
    let kind = classify(ns);
    if kind == Ns::Types && (str_eq_ignore_case(l, "FileAttachment") || str_eq_ignore_case(l, "ItemAttachment")) {
        st.current = Some(GetAttachmentInline { attachment_id: String::new(), name: None, content_type: None, is_contact_photo: false, content_base64: String::new() });
    } else if st.current.is_some() && kind == Ns::Types {
        if str_eq_ignore_case(l, "AttachmentId") {
            match attr_value(attrs, "Id") {
                Some(v) => {
                    let c = st.current.take();
                    match c {
                        Some(mut cur) => {
                            cur.attachment_id = v;
                            st.current = Some(cur);
                        },
                        None => {},
                    }
                },
                None => {},
            }
        } else if str_eq_ignore_case(l, "Name") {
            st.target = Some(AttachmentField::Name);
        } else if str_eq_ignore_case(l, "ContentType") {
            st.target = Some(AttachmentField::ContentType);
        } else if str_eq_ignore_case(l, "IsContactPhoto") {
            st.target = Some(AttachmentField::IsContactPhoto);
        } else if str_eq_ignore_case(l, "Content") {
            st.target = Some(AttachmentField::Content);
        } else {
            st.target = None;
        }
    }
    st
}

fn apply_inline_text(st: InlineState, t: &str) -> (r: InlineState)
    ensures
        r@ == inline_text(st@, t@),
{
    let mut st = st;
    let c = st.current.take();
    match c {
        Some(mut cur) => {
            match st.target {
                Some(AttachmentField::Name) => {
                    cur.name = Some(t.to_owned());
                },
                Some(AttachmentField::ContentType) => {
                    cur.content_type = Some(t.to_owned());
                },
                Some(AttachmentField::IsContactPhoto) => {
                    cur.is_contact_photo = is_truthy(t);
                },
                Some(AttachmentField::Content) => {
                    cur.content_base64.append(t);
                },
                None => {},
            }
            st.current = Some(cur);
        },
        None => {},
    }
    st
}

fn apply_inline_step(st: InlineState, e: &XmlStep) -> (r: InlineState)
    ensures
        r@ == inline_step(st@, e@),
{
    let mut st = st;
    match e {
        XmlStep::Start(ns, name, attrs) => apply_inline_tag(st, ns, name.as_str(), attrs.as_str()),
        XmlStep::Empty(ns, name, attrs) => {
            let mut st = apply_inline_tag(st, ns, name.as_str(), attrs.as_str());
            st.target = None;
            st
        },
        XmlStep::End(_, name) => {
            let l = local_name_of(name.as_str());
            if str_eq_ignore_case(l.as_str(), "FileAttachment") || str_eq_ignore_case(l.as_str(), "ItemAttachment") {
                let c = st.current.take();
                match c {
                    Some(att) => {
                        let ghost before = inlines_view(st.out@);
                        let ghost av = att@;
                        st.out.push(att);
                        assert(inlines_view(st.out@) =~= before.push(av));
                    },
                    None => {},
                }
            }
            st.target = None;
            st
        },
        XmlStep::Text(t) => apply_inline_text(st, t.as_str()),
        XmlStep::CData(t) => apply_inline_text(st, t.as_str()),
        _ => st,
    }
}

/// The attachments of a `GetAttachment` reply with their content.
pub fn parse_get_attachment_inline(body: &[u8]) -> (r: Result<Vec<GetAttachmentInline>, EwsError>)
    ensures
        match inline_spec(document_steps(body@, true), 0, InlineSt { out: Seq::empty(), current: None, target: None }) {
            Ok(v) => r matches Ok(x) && inlines_view(x@) == v,
            Err(e) => r matches Err(EwsError::Xml(m)) && m@ == e,
        },
{
    let steps = xml_steps(body, true);
    let ghost s = steps_view(steps@);
    let n = steps.len();
    let mut st = InlineState { out: Vec::new(), current: None, target: None };
    assert(inlines_view(st.out@) =~= Seq::<InlineV>::empty());
    let mut k: usize = 0;
    loop
        invariant
            s == steps_view(steps@),
            s == document_steps(body@, true),
            s.len() == steps@.len(),
            n == s.len(),
            well_ended(s),
            k < s.len(),
            inline_spec(s, 0, InlineSt { out: Seq::empty(), current: None, target: None }) == inline_spec(s, k as int, st@),
        decreases s.len() - k,
    {
        assert(s[k as int] == steps@[k as int]@);
        match &steps[k] {
            XmlStep::Eof => {
                return Ok(st.out);
            },
            XmlStep::Failed(m) => {
                return Err(EwsError::Xml(m.clone()));
            },
            _ => {
                proof { lemma_next(s, k as int); }
                st = apply_inline_step(st, &steps[k]);
                k = k + 1;
            },
        }
    }
}

// ---------------------------------------------------------------------------
// Contacts

/// A postal address of a contact.
#[derive(Debug, Clone, Default)]
pub struct RawContactAddress {
    pub key: String,
    pub street: Option<String>,
    pub city: Option<String>,
    pub state: Option<String>,
    pub country: Option<String>,
    pub postal_code: Option<String>,
}

pub struct AddressV {
    pub key: Seq<char>,
    pub street: Option<Seq<char>>,
    pub city: Option<Seq<char>>,
    pub state: Option<Seq<char>>,
    pub country: Option<Seq<char>>,
    pub postal_code: Option<Seq<char>>,
}

impl View for RawContactAddress {
    type V = AddressV;

    open spec fn view(&self) -> AddressV {
        AddressV {
            key: self.key@,
            street: opt_string_view(self.street),
            city: opt_string_view(self.city),
            state: opt_string_view(self.state),
            country: opt_string_view(self.country),
            postal_code: opt_string_view(self.postal_code),
        }
    }
}

pub open spec fn addresses_view(v: Seq<RawContactAddress>) -> Seq<AddressV> {
    v.map_values(|a: RawContactAddress| a@)
}

pub open spec fn pairs_view(v: Seq<(String, String)>) -> Seq<(Seq<char>, Seq<char>)> {
    v.map_values(|p: (String, String)| (p.0@, p.1@))
}

/// A contact read from the inner markup of a `GetItem` response message.
#[derive(Debug, Clone, Default)]
pub struct ContactItemRaw {
    pub id: ItemId,
    pub parent_folder_id: Option<String>,
    pub display_name: Option<String>,
    pub given_name: Option<String>,
    pub middle_name: Option<String>,
    pub surname: Option<String>,
    pub initials: Option<String>,
    pub nickname: Option<String>,
    pub company_name: Option<String>,
    pub department: Option<String>,
    pub job_title: Option<String>,
    pub generation: Option<String>,
    pub office_location: Option<String>,
    pub url: Option<String>,
    pub birthday: Option<String>,
    pub wedding_anniversary: Option<String>,
    pub manager: Option<String>,
    pub spouse: Option<String>,
    pub assistant: Option<String>,
    pub profession: Option<String>,
    pub postal_address_index: Option<String>,
    pub notes: Option<String>,
    pub created: Option<String>,
    pub last_modified: Option<String>,
    pub categories: Vec<String>,
    pub emails: Vec<(String, String)>,
    pub phones: Vec<(String, String)>,
    pub addresses: Vec<RawContactAddress>,
    pub ims: Vec<(String, String)>,
    pub children: Vec<String>,
    pub companies: Vec<String>,
    pub attachments: Vec<RawAttachmentRef>,
}

pub struct ContactV {
    pub id: Seq<char>,
    pub change_key: Seq<char>,
    pub parent_folder_id: Option<Seq<char>>,
    pub display_name: Option<Seq<char>>,
    pub given_name: Option<Seq<char>>,
    pub middle_name: Option<Seq<char>>,
    pub surname: Option<Seq<char>>,
    pub initials: Option<Seq<char>>,
    pub nickname: Option<Seq<char>>,
    pub company_name: Option<Seq<char>>,
    pub department: Option<Seq<char>>,
    pub job_title: Option<Seq<char>>,
    pub generation: Option<Seq<char>>,
    pub office_location: Option<Seq<char>>,
    pub url: Option<Seq<char>>,
    pub birthday: Option<Seq<char>>,
    pub wedding_anniversary: Option<Seq<char>>,
    pub manager: Option<Seq<char>>,
    pub spouse: Option<Seq<char>>,
    pub assistant: Option<Seq<char>>,
    pub profession: Option<Seq<char>>,
    pub postal_address_index: Option<Seq<char>>,
    pub notes: Option<Seq<char>>,
    pub created: Option<Seq<char>>,
    pub last_modified: Option<Seq<char>>,
    pub categories: Seq<Seq<char>>,
    pub emails: Seq<(Seq<char>, Seq<char>)>,
    pub phones: Seq<(Seq<char>, Seq<char>)>,
    pub addresses: Seq<AddressV>,
    pub ims: Seq<(Seq<char>, Seq<char>)>,
    pub children: Seq<Seq<char>>,
    pub companies: Seq<Seq<char>>,
    pub attachments: Seq<AttachmentV>,
}

impl View for ContactItemRaw {
    type V = ContactV;

    open spec fn view(&self) -> ContactV {
        ContactV {
            id: self.id.id@,
            change_key: self.id.change_key@,
            parent_folder_id: opt_string_view(self.parent_folder_id),
            display_name: opt_string_view(self.display_name),
            given_name: opt_string_view(self.given_name),
            middle_name: opt_string_view(self.middle_name),
            surname: opt_string_view(self.surname),
            initials: opt_string_view(self.initials),
            nickname: opt_string_view(self.nickname),
            company_name: opt_string_view(self.company_name),
            department: opt_string_view(self.department),
            job_title: opt_string_view(self.job_title),
            generation: opt_string_view(self.generation),
            office_location: opt_string_view(self.office_location),
            url: opt_string_view(self.url),
            birthday: opt_string_view(self.birthday),
            wedding_anniversary: opt_string_view(self.wedding_anniversary),
            manager: opt_string_view(self.manager),
            spouse: opt_string_view(self.spouse),
            assistant: opt_string_view(self.assistant),
            profession: opt_string_view(self.profession),
            postal_address_index: opt_string_view(self.postal_address_index),
            notes: opt_string_view(self.notes),
            created: opt_string_view(self.created),
            last_modified: opt_string_view(self.last_modified),
            categories: strings_view(self.categories@),
            emails: pairs_view(self.emails@),
            phones: pairs_view(self.phones@),
            addresses: addresses_view(self.addresses@),
            ims: pairs_view(self.ims@),
            children: strings_view(self.children@),
            companies: strings_view(self.companies@),
            attachments: attachments_view(self.attachments@),
        }
    }
}

/// The text fields of a contact.
#[derive(Debug, Clone, Copy, PartialEq, Eq, Structural)]
pub enum ContactField {
    DisplayName,
    GivenName,
    MiddleName,
    Surname,
    Initials,
    Nickname,
    CompanyName,
    Department,
    JobTitle,
    Generation,
    OfficeLocation,
    Url,
    Birthday,
    WeddingAnniversary,
    Manager,
    Spouse,
    Assistant,
    Profession,
    PostalAddressIndex,
    Notes,
    Created,
    LastModified,
}

/// The field that an element of this local name fills.
pub open spec fn contact_field_of(l: Seq<char>) -> Option<ContactField> {
    if eq_ignore_case(l, "DisplayName"@) {
        Some(ContactField::DisplayName)
    } else if eq_ignore_case(l, "GivenName"@) {
        Some(ContactField::GivenName)
    } else if eq_ignore_case(l, "MiddleName"@) {
        Some(ContactField::MiddleName)
    } else if eq_ignore_case(l, "Surname"@) {
        Some(ContactField::Surname)
    } else if eq_ignore_case(l, "Initials"@) {
        Some(ContactField::Initials)
    } else if eq_ignore_case(l, "Nickname"@) {
        Some(ContactField::Nickname)
    } else if eq_ignore_case(l, "CompanyName"@) {
        Some(ContactField::CompanyName)
    } else if eq_ignore_case(l, "Department"@) {
        Some(ContactField::Department)
    } else if eq_ignore_case(l, "JobTitle"@) {
        Some(ContactField::JobTitle)
    } else if eq_ignore_case(l, "Generation"@) {
        Some(ContactField::Generation)
    } else if eq_ignore_case(l, "OfficeLocation"@) {
        Some(ContactField::OfficeLocation)
    } else if eq_ignore_case(l, "BusinessHomePage"@) {
        Some(ContactField::Url)
    } else if eq_ignore_case(l, "Birthday"@) {
        Some(ContactField::Birthday)
    } else if eq_ignore_case(l, "WeddingAnniversary"@) {
        Some(ContactField::WeddingAnniversary)
    } else if eq_ignore_case(l, "Manager"@) {
        Some(ContactField::Manager)
    } else if eq_ignore_case(l, "SpouseName"@) {
        Some(ContactField::Spouse)
    } else if eq_ignore_case(l, "AssistantName"@) {
        Some(ContactField::Assistant)
    } else if eq_ignore_case(l, "Profession"@) {
        Some(ContactField::Profession)
    } else if eq_ignore_case(l, "PostalAddressIndex"@) {
        Some(ContactField::PostalAddressIndex)
    } else if eq_ignore_case(l, "Body"@) {
        Some(ContactField::Notes)
    } else if eq_ignore_case(l, "DateTimeCreated"@) {
        Some(ContactField::Created)
    } else if eq_ignore_case(l, "LastModifiedTime"@) {
        Some(ContactField::LastModified)
    } else {
        None
    }
}

fn contact_field(l: &str) -> (r: Option<ContactField>)
    ensures
        r == contact_field_of(l@),
{
    if str_eq_ignore_case(l, "DisplayName") {
        Some(ContactField::DisplayName)
    } else if str_eq_ignore_case(l, "GivenName") {
        Some(ContactField::GivenName)
    } else if str_eq_ignore_case(l, "MiddleName") {
        Some(ContactField::MiddleName)
    } else if str_eq_ignore_case(l, "Surname") {
        Some(ContactField::Surname)
    } else if str_eq_ignore_case(l, "Initials") {
        Some(ContactField::Initials)
    } else if str_eq_ignore_case(l, "Nickname") {
        Some(ContactField::Nickname)
    } else if str_eq_ignore_case(l, "CompanyName") {
        Some(ContactField::CompanyName)
    } else if str_eq_ignore_case(l, "Department") {
        Some(ContactField::Department)
    } else if str_eq_ignore_case(l, "JobTitle") {
        Some(ContactField::JobTitle)
    } else if str_eq_ignore_case(l, "Generation") {
        Some(ContactField::Generation)
    } else if str_eq_ignore_case(l, "OfficeLocation") {
        Some(ContactField::OfficeLocation)
    } else if str_eq_ignore_case(l, "BusinessHomePage") {
        Some(ContactField::Url)
    } else if str_eq_ignore_case(l, "Birthday") {
        Some(ContactField::Birthday)
    } else if str_eq_ignore_case(l, "WeddingAnniversary") {
        Some(ContactField::WeddingAnniversary)
    } else if str_eq_ignore_case(l, "Manager") {
        Some(ContactField::Manager)
    } else if str_eq_ignore_case(l, "SpouseName") {
        Some(ContactField::Spouse)
    } else if str_eq_ignore_case(l, "AssistantName") {
        Some(ContactField::Assistant)
    } else if str_eq_ignore_case(l, "Profession") {
        Some(ContactField::Profession)
    } else if str_eq_ignore_case(l, "PostalAddressIndex") {
        Some(ContactField::PostalAddressIndex)
    } else if str_eq_ignore_case(l, "Body") {
        Some(ContactField::Notes)
    } else if str_eq_ignore_case(l, "DateTimeCreated") {
        Some(ContactField::Created)
    } else if str_eq_ignore_case(l, "LastModifiedTime") {
        Some(ContactField::LastModified)
    } else {
        None
    }
}

/// The contact with a text field set.
pub open spec fn with_contact_field(c: ContactV, f: ContactField, t: Seq<char>) -> ContactV {
    match f {
        ContactField::DisplayName => ContactV { display_name: Some(t), ..c },
        ContactField::GivenName => ContactV { given_name: Some(t), ..c },
        ContactField::MiddleName => ContactV { middle_name: Some(t), ..c },
        ContactField::Surname => ContactV { surname: Some(t), ..c },
        ContactField::Initials => ContactV { initials: Some(t), ..c },
        ContactField::Nickname => ContactV { nickname: Some(t), ..c },
        ContactField::CompanyName => ContactV { company_name: Some(t), ..c },
        ContactField::Department => ContactV { department: Some(t), ..c },
        ContactField::JobTitle => ContactV { job_title: Some(t), ..c },
        ContactField::Generation => ContactV { generation: Some(t), ..c },
        ContactField::OfficeLocation => ContactV { office_location: Some(t), ..c },
        ContactField::Url => ContactV { url: Some(t), ..c },
        ContactField::Birthday => ContactV { birthday: Some(t), ..c },
        ContactField::WeddingAnniversary => ContactV { wedding_anniversary: Some(t), ..c },
        ContactField::Manager => ContactV { manager: Some(t), ..c },
        ContactField::Spouse => ContactV { spouse: Some(t), ..c },
        ContactField::Assistant => ContactV { assistant: Some(t), ..c },
        ContactField::Profession => ContactV { profession: Some(t), ..c },
        ContactField::PostalAddressIndex => ContactV { postal_address_index: Some(t), ..c },
        ContactField::Notes => ContactV { notes: Some(t), ..c },
        ContactField::Created => ContactV { created: Some(t), ..c },
        ContactField::LastModified => ContactV { last_modified: Some(t), ..c },
    }
}

fn set_contact_field(c: ContactItemRaw, f: ContactField, t: String) -> (r: ContactItemRaw)
    ensures
        r@ == with_contact_field(c@, f, t@),
{
    let mut c = c;
    match f {
        ContactField::DisplayName => {
            c.display_name = Some(t);
        },
        ContactField::GivenName => {
            c.given_name = Some(t);
        },
        ContactField::MiddleName => {
            c.middle_name = Some(t);
        },
        ContactField::Surname => {
            c.surname = Some(t);
        },
        ContactField::Initials => {
            c.initials = Some(t);
        },
        ContactField::Nickname => {
            c.nickname = Some(t);
        },
        ContactField::CompanyName => {
            c.company_name = Some(t);
        },
        ContactField::Department => {
            c.department = Some(t);
        },
        ContactField::JobTitle => {
            c.job_title = Some(t);
        },
        ContactField::Generation => {
            c.generation = Some(t);
        },
        ContactField::OfficeLocation => {
            c.office_location = Some(t);
        },
        ContactField::Url => {
            c.url = Some(t);
        },
        ContactField::Birthday => {
            c.birthday = Some(t);
        },
        ContactField::WeddingAnniversary => {
            c.wedding_anniversary = Some(t);
        },
        ContactField::Manager => {
            c.manager = Some(t);
        },
        ContactField::Spouse => {
            c.spouse = Some(t);
        },
        ContactField::Assistant => {
            c.assistant = Some(t);
        },
        ContactField::Profession => {
            c.profession = Some(t);
        },
        ContactField::PostalAddressIndex => {
            c.postal_address_index = Some(t);
        },
        ContactField::Notes => {
            c.notes = Some(t);
        },
        ContactField::Created => {
            c.created = Some(t);
        },
        ContactField::LastModified => {
            c.last_modified = Some(t);
        },
    }
    c
}


#[derive(Debug, Clone, Copy, PartialEq, Eq, Structural)]
pub enum ContactTarget {
    Field(ContactField),
    Category,
    Child,
    Company,
    EntryValue,
}

#[derive(Debug, Clone, Copy, PartialEq, Eq, Structural)]
pub enum EntryContainer {
    Email,
    Phone,
    Im,
    Address,
}

#[derive(Debug, Clone, Copy, PartialEq, Eq, Structural)]
pub enum AddressField {
    Street,
    City,
    State,
    Country,
    Postal,
}

/// What has been read of a contact.
pub struct ContactSt {
    pub item: ContactV,
    pub target: Option<ContactTarget>,
    pub categories_open: bool,
    pub children_open: bool,
    pub companies_open: bool,
    pub container: Option<EntryContainer>,
    pub entry_key: Option<Seq<char>>,
    pub address: Option<AddressV>,
    pub address_text: Option<AddressField>,
    pub seen_root: bool,
}

pub open spec fn address_field_of(l: Seq<char>) -> Option<AddressField> {
    if eq_ignore_case(l, "Street"@) {
        Some(AddressField::Street)
    } else if eq_ignore_case(l, "City"@) {
        Some(AddressField::City)
    } else if eq_ignore_case(l, "State"@) {
        Some(AddressField::State)
    } else if eq_ignore_case(l, "CountryOrRegion"@) {
        Some(AddressField::Country)
    } else if eq_ignore_case(l, "PostalCode"@) {
        Some(AddressField::Postal)
    } else {
        None
    }
}

pub open spec fn new_address(key: Option<Seq<char>>) -> AddressV {
    AddressV {
        key: match key { Some(k) => k, None => Seq::empty() },
        street: None,
        city: None,
        state: None,
        country: None,
        postal_code: None,
    }
}

pub open spec fn contact_types_tag(st: ContactSt, l: Seq<char>, attrs: Seq<char>) -> ContactSt {
    let c = st.item;
    if eq_ignore_case(l, "ItemId"@) {
        let (id, ck) = id_attrs(attrs_of(attrs), c.id, c.change_key);
        ContactSt { item: ContactV { id, change_key: ck, ..c }, ..st }
    } else if eq_ignore_case(l, "ParentFolderId"@) {
        ContactSt { item: ContactV { parent_folder_id: parent_of(attrs, c.parent_folder_id), ..c }, ..st }
    } else if contact_field_of(l) is Some {
        ContactSt { target: Some(ContactTarget::Field(contact_field_of(l)->Some_0)), ..st }
    } else if eq_ignore_case(l, "Categories"@) {
        ContactSt { categories_open: true, ..st }
    } else if st.categories_open && eq_ignore_case(l, "String"@) {
        ContactSt { target: Some(ContactTarget::Category), ..st }
    } else if eq_ignore_case(l, "Children"@) {
        ContactSt { children_open: true, ..st }
    } else if st.children_open && eq_ignore_case(l, "String"@) {
        ContactSt { target: Some(ContactTarget::Child), ..st }
    } else if eq_ignore_case(l, "Companies"@) {
        ContactSt { companies_open: true, ..st }
    } else if st.companies_open && eq_ignore_case(l, "String"@) {
        ContactSt { target: Some(ContactTarget::Company), ..st }
    } else if eq_ignore_case(l, "EmailAddresses"@) {
        ContactSt { container: Some(EntryContainer::Email), ..st }
    } else if eq_ignore_case(l, "PhoneNumbers"@) {
        ContactSt { container: Some(EntryContainer::Phone), ..st }
    } else if eq_ignore_case(l, "ImAddresses"@) {
        ContactSt { container: Some(EntryContainer::Im), ..st }
    } else if eq_ignore_case(l, "PhysicalAddresses"@) {
        ContactSt { container: Some(EntryContainer::Address), ..st }
    } else if eq_ignore_case(l, "Entry"@) {
        let key = attr_in(attrs_of(attrs), "Key"@);
        if st.container == Some(EntryContainer::Address) {
            ContactSt { entry_key: key, address: Some(new_address(key)), ..st }
        } else {
            ContactSt { entry_key: key, target: Some(ContactTarget::EntryValue), ..st }
        }
    } else if st.address is Some {
        ContactSt { address_text: address_field_of(l), ..st }
    } else if attachment_element(l) {
        st
    } else {
        ContactSt { target: None, ..st }
    }
}

/// The effect of a tag that does not open an attachment.
pub open spec fn contact_tag(st: ContactSt, ns: Option<Seq<char>>, name: Seq<char>, attrs: Seq<char>, empty: bool) -> ContactSt {
    let l = local_name(name);
    if !st.seen_root && eq_ignore_case(l, "Contact"@) {
        ContactSt { seen_root: true, ..st }
    } else if ews_ns(ns) != Ns::Types {
        st
    } else {
        let st = contact_types_tag(st, l, attrs);
        if empty { ContactSt { target: None, address_text: None, ..st } } else { st }
    }
}

/// Whether a tag opens an attachment, which is read in full.
pub open spec fn contact_is_attachment(st: ContactSt, ns: Option<Seq<char>>, name: Seq<char>) -> bool {
    let l = local_name(name);
    &&& (st.seen_root || !eq_ignore_case(l, "Contact"@))
    &&& ews_ns(ns) == Ns::Types
    &&& st.address is None
    &&& attachment_element(l)
}

pub open spec fn contact_with_attachment(st: ContactSt, a: AttachmentV, empty: bool) -> ContactSt {
    let st = ContactSt { item: ContactV { attachments: st.item.attachments.push(a), ..st.item }, ..st };
    if empty { ContactSt { target: None, address_text: None, ..st } } else { st }
}

pub open spec fn contact_end(st: ContactSt, name: Seq<char>) -> ContactSt {
    let l = local_name(name);
    let st = if eq_ignore_case(l, "categories"@) {
        ContactSt { categories_open: false, ..st }
    } else if eq_ignore_case(l, "children"@) {
        ContactSt { children_open: false, ..st }
    } else if eq_ignore_case(l, "companies"@) {
        ContactSt { companies_open: false, ..st }
    } else if eq_ignore_case(l, "emailaddresses"@) || eq_ignore_case(l, "phonenumbers"@) || eq_ignore_case(l, "imaddresses"@) || eq_ignore_case(l, "physicaladdresses"@) {
        ContactSt { container: None, ..st }
    } else if eq_ignore_case(l, "entry"@) {
        let st = match st.address {
            Some(a) => ContactSt { item: ContactV { addresses: st.item.addresses.push(a), ..st.item }, address: None, ..st },
            None => st,
        };
        ContactSt { entry_key: None, ..st }
    } else if address_field_of(l) is Some {
        ContactSt { address_text: None, ..st }
    } else {
        st
    };
    ContactSt { target: None, ..st }
}

pub open spec fn with_address_field(a: AddressV, f: AddressField, t: Seq<char>) -> AddressV {
    match f {
        AddressField::Street => AddressV { street: Some(t), ..a },
        AddressField::City => AddressV { city: Some(t), ..a },
        AddressField::State => AddressV { state: Some(t), ..a },
        AddressField::Country => AddressV { country: Some(t), ..a },
        AddressField::Postal => AddressV { postal_code: Some(t), ..a },
    }
}

pub open spec fn contact_text(st: ContactSt, t: Seq<char>) -> ContactSt {
    let c = st.item;
    if st.address_text is Some && st.address is Some {
        ContactSt { address: Some(with_address_field(st.address->Some_0, st.address_text->Some_0, t)), ..st }
    } else {
        match st.target {
            Some(ContactTarget::Field(f)) => ContactSt { item: with_contact_field(c, f, t), ..st },
            Some(ContactTarget::Category) => ContactSt { item: ContactV { categories: c.categories.push(t), ..c }, ..st },
            Some(ContactTarget::Child) => ContactSt { item: ContactV { children: c.children.push(t), ..c }, ..st },
            Some(ContactTarget::Company) => ContactSt { item: ContactV { companies: c.companies.push(t), ..c }, ..st },
            Some(ContactTarget::EntryValue) => {
                let key = match st.entry_key { Some(k) => k, None => Seq::empty() };
                match st.container {
                    Some(EntryContainer::Email) => ContactSt { item: ContactV { emails: c.emails.push((key, t)), ..c }, ..st },
                    Some(EntryContainer::Phone) => ContactSt { item: ContactV { phones: c.phones.push((key, t)), ..c }, ..st },
                    Some(EntryContainer::Im) => ContactSt { item: ContactV { ims: c.ims.push((key, t)), ..c }, ..st },
                    _ => st,
                }
            },
            None => st,
        }
    }
}

/// Reading a contact from step `i`.
pub open spec fn contact_spec(s: Seq<XmlStepV>, i: int, st: ContactSt) -> Result<ContactV, Seq<char>>
    decreases s.len() - i,
{
    if i < 0 || i >= s.len() {
        Ok(st.item)
    } else {
        match s[i] {
            XmlStepV::Start(ns, name, attrs) => if contact_is_attachment(st, ns, name) {
                let (r, j) = att_spec(s, i + 1, att_start(local_name(name)));
                match r {
                    Err(e) => Err(e),
                    Ok(a) => if i < j <= s.len() { contact_spec(s, j, contact_with_attachment(st, a, false)) } else { Ok(st.item) },
                }
            } else {
                contact_spec(s, i + 1, contact_tag(st, ns, name, attrs, false))
            },
            XmlStepV::Empty(ns, name, attrs) => if contact_is_attachment(st, ns, name) {
                let (r, j) = att_spec(s, i + 1, att_start(local_name(name)));
                match r {
                    Err(e) => Err(e),
                    Ok(a) => if i < j <= s.len() { contact_spec(s, j, contact_with_attachment(st, a, true)) } else { Ok(st.item) },
                }
            } else {
                contact_spec(s, i + 1, contact_tag(st, ns, name, attrs, true))
            },
            XmlStepV::End(_, name) => contact_spec(s, i + 1, contact_end(st, name)),
            XmlStepV::Text(t) => contact_spec(s, i + 1, contact_text(st, t)),
            XmlStepV::CData(t) => contact_spec(s, i + 1, contact_text(st, t)),
            XmlStepV::Eof => Ok(st.item),
            XmlStepV::Failed(m) => Err(m),
            XmlStepV::Other => contact_spec(s, i + 1, st),
        }
    }
}


pub open spec fn no_contact() -> ContactV {
    ContactV {
        id: Seq::empty(),
        change_key: Seq::empty(),
        parent_folder_id: None,
        display_name: None,
        given_name: None,
        middle_name: None,
        surname: None,
        initials: None,
        nickname: None,
        company_name: None,
        department: None,
        job_title: None,
        generation: None,
        office_location: None,
        url: None,
        birthday: None,
        wedding_anniversary: None,
        manager: None,
        spouse: None,
        assistant: None,
        profession: None,
        postal_address_index: None,
        notes: None,
        created: None,
        last_modified: None,
        categories: Seq::empty(),
        emails: Seq::empty(),
        phones: Seq::empty(),
        addresses: Seq::empty(),
        ims: Seq::empty(),
        children: Seq::empty(),
        companies: Seq::empty(),
        attachments: Seq::empty(),
    }
}

pub open spec fn contact_start() -> ContactSt {
    ContactSt {
        item: no_contact(),
        target: None,
        categories_open: false,
        children_open: false,
        companies_open: false,
        container: None,
        entry_key: None,
        address: None,
        address_text: None,
        seen_root: false,
    }
}

struct ContactState {
    item: ContactItemRaw,
    target: Option<ContactTarget>,
    categories_open: bool,
    children_open: bool,
    companies_open: bool,
    container: Option<EntryContainer>,
    entry_key: Option<String>,
    address: Option<RawContactAddress>,
    address_text: Option<AddressField>,
    seen_root: bool,
}

pub open spec fn opt_address_view(a: Option<RawContactAddress>) -> Option<AddressV> {
    match a {
        Some(x) => Some(x@),
        None => None,
    }
}

impl View for ContactState {
    type V = ContactSt;

    closed spec fn view(&self) -> ContactSt {
        ContactSt {
            item: self.item@,
            target: self.target,
            categories_open: self.categories_open,
            children_open: self.children_open,
            companies_open: self.companies_open,
            container: self.container,
            entry_key: opt_string_view(self.entry_key),
            address: opt_address_view(self.address),
            address_text: self.address_text,
            seen_root: self.seen_root,
        }
    }
}

fn push_pair(v: &mut Vec<(String, String)>, k: String, t: String)
    ensures
        pairs_view(final(v)@) == pairs_view(old(v)@).push((k@, t@)),
{
    let ghost before = pairs_view(v@);
    let ghost p = (k@, t@);
    v.push((k, t));
    assert(pairs_view(v@) =~= before.push(p));
}

fn push_address(v: &mut Vec<RawContactAddress>, a: RawContactAddress)
    ensures
        addresses_view(final(v)@) == addresses_view(old(v)@).push(a@),
{
    let ghost before = addresses_view(v@);
    let ghost av = a@;
    v.push(a);
    assert(addresses_view(v@) =~= before.push(av));
}

fn push_attachment(v: &mut Vec<RawAttachmentRef>, a: RawAttachmentRef)
    ensures
        attachments_view(final(v)@) == attachments_view(old(v)@).push(a@),
{
    let ghost before = attachments_view(v@);
    let ghost av = a@;
    v.push(a);
    assert(attachments_view(v@) =~= before.push(av));
}

fn address_field(l: &str) -> (r: Option<AddressField>)
    ensures
        r == address_field_of(l@),
{
    if str_eq_ignore_case(l, "Street") {
        Some(AddressField::Street)
    } else if str_eq_ignore_case(l, "City") {
        Some(AddressField::City)
    } else if str_eq_ignore_case(l, "State") {
        Some(AddressField::State)
    } else if str_eq_ignore_case(l, "CountryOrRegion") {
        Some(AddressField::Country)
    } else if str_eq_ignore_case(l, "PostalCode") {
        Some(AddressField::Postal)
    } else {
        None
    }
}

/// The tags of a contact that open a list, an entry or an address part.
#[verifier::rlimit(40)]
fn apply_contact_list_tag(st: ContactState, l: &str, attrs: &str) -> (r: ContactState)
    requires
        !eq_ignore_case(l@, "ItemId"@),
        !eq_ignore_case(l@, "ParentFolderId"@),
        contact_field_of(l@) is None,
    ensures
        r@ == contact_types_tag(st@, l@, attrs@),
{
    let mut st = st;
    if str_eq_ignore_case(l, "Categories") {
        st.categories_open = true;
    } else if st.categories_open && str_eq_ignore_case(l, "String") {
        st.target = Some(ContactTarget::Category);
    } else if str_eq_ignore_case(l, "Children") {
        st.children_open = true;
    } else if st.children_open && str_eq_ignore_case(l, "String") {
        st.target = Some(ContactTarget::Child);
    } else if str_eq_ignore_case(l, "Companies") {
        st.companies_open = true;
    } else if st.companies_open && str_eq_ignore_case(l, "String") {
        st.target = Some(ContactTarget::Company);
    } else if str_eq_ignore_case(l, "EmailAddresses") {
        st.container = Some(EntryContainer::Email);
    } else if str_eq_ignore_case(l, "PhoneNumbers") {
        st.container = Some(EntryContainer::Phone);
    } else if str_eq_ignore_case(l, "ImAddresses") {
        st.container = Some(EntryContainer::Im);
    } else if str_eq_ignore_case(l, "PhysicalAddresses") {
        st.container = Some(EntryContainer::Address);
    } else if str_eq_ignore_case(l, "Entry") {
        let key = attr_value(attrs, "Key");
        if st.container == Some(EntryContainer::Address) {
            let k = match &key {
                Some(k) => k.clone(),
                None => String::new(),
            };
            st.address = Some(RawContactAddress {
                key: k,
                street: None,
                city: None,
                state: None,
                country: None,
                postal_code: None,
            });
        } else {
            st.target = Some(ContactTarget::EntryValue);
        }
        st.entry_key = key;
    } else if st.address.is_some() {
        st.address_text = address_field(l);
    } else if str_eq_ignore_case(l, "FileAttachment") || str_eq_ignore_case(l, "ItemAttachment") {
    } else {
        st.target = None;
    }
    st
}

fn apply_contact_types_tag(st: ContactState, l: &str, attrs: &str) -> (r: ContactState)
    ensures
        r@ == contact_types_tag(st@, l@, attrs@),
{
    let mut st = st;
    if str_eq_ignore_case(l, "ItemId") {
        let (id, ck) = capture_id_attrs(attrs, st.item.id.id, st.item.id.change_key);
        st.item.id = ItemId { id, change_key: ck };
        st
    } else if str_eq_ignore_case(l, "ParentFolderId") {
        let (pid, _ck) = capture_id_attrs(attrs, String::new(), String::new());
        if !pid.as_str().is_empty() {
            st.item.parent_folder_id = Some(pid);
        }
        st
    } else {
        match contact_field(l) {
            Some(f) => {
                st.target = Some(ContactTarget::Field(f));
                st
            },
            None => apply_contact_list_tag(st, l, attrs),
        }
    }
}

fn apply_contact_tag(st: ContactState, ns: &Option<String>, name: &str, attrs: &str, empty: bool) -> (r: ContactState)
    ensures
        r@ == contact_tag(st@, opt_string_view(*ns), name@, attrs@, empty),
{
    let mut st = st;
    let l = local_name_of(name);
    if !st.seen_root && str_eq_ignore_case(l.as_str(), "Contact") {
        st.seen_root = true;
        st
    } else if classify(ns) != Ns::Types {
        st
    } else {
        let mut st = apply_contact_types_tag(st, l.as_str(), attrs);
        if empty {
            st.target = None;
            st.address_text = None;
        }
        st
    }
}

fn contact_opens_attachment(st: &ContactState, ns: &Option<String>, name: &str) -> (r: bool)
    ensures
        r == contact_is_attachment(st@, opt_string_view(*ns), name@),
{
    let l = local_name_of(name);
    (st.seen_root || !str_eq_ignore_case(l.as_str(), "Contact")) && classify(ns) == Ns::Types
        && st.address.is_none() && (str_eq_ignore_case(l.as_str(), "FileAttachment")
        || str_eq_ignore_case(l.as_str(), "ItemAttachment"))
}

fn set_address_field(a: RawContactAddress, f: AddressField, t: String) -> (r: RawContactAddress)
    ensures
        r@ == with_address_field(a@, f, t@),
{
    let mut a = a;
    match f {
        AddressField::Street => {
            a.street = Some(t);
        },
        AddressField::City => {
            a.city = Some(t);
        },
        AddressField::State => {
            a.state = Some(t);
        },
        AddressField::Country => {
            a.country = Some(t);
        },
        AddressField::Postal => {
            a.postal_code = Some(t);
        },
    }
    a
}

fn apply_contact_text(st: ContactState, t: &str) -> (r: ContactState)
    ensures
        r@ == contact_text(st@, t@),
{
    let mut st = st;
    if st.address_text.is_some() && st.address.is_some() {
        let f = st.address_text.unwrap();
        let a = st.address.take().unwrap();
        st.address = Some(set_address_field(a, f, t.to_owned()));
        return st;
    }
    match st.target {
        Some(ContactTarget::Field(f)) => {
            st.item = set_contact_field(st.item, f, t.to_owned());
        },
        Some(ContactTarget::Category) => {
            push_string(&mut st.item.categories, t.to_owned());
        },
        Some(ContactTarget::Child) => {
            push_string(&mut st.item.children, t.to_owned());
        },
        Some(ContactTarget::Company) => {
            push_string(&mut st.item.companies, t.to_owned());
        },
        Some(ContactTarget::EntryValue) => {
            let key = match &st.entry_key {
                Some(k) => k.clone(),
                None => String::new(),
            };
            match st.container {
                Some(EntryContainer::Email) => {
                    push_pair(&mut st.item.emails, key, t.to_owned());
                },
                Some(EntryContainer::Phone) => {
                    push_pair(&mut st.item.phones, key, t.to_owned());
                },
                Some(EntryContainer::Im) => {
                    push_pair(&mut st.item.ims, key, t.to_owned());
                },
                _ => {},
            }
        },
        None => {},
    }
    st
}

fn apply_contact_end(st: ContactState, name: &str) -> (r: ContactState)
    ensures
        r@ == contact_end(st@, name@),
{
    let mut st = st;
    let l = local_name_of(name);
    let l = l.as_str();
    if str_eq_ignore_case(l, "categories") {
        st.categories_open = false;
    } else if str_eq_ignore_case(l, "children") {
        st.children_open = false;
    } else if str_eq_ignore_case(l, "companies") {
        st.companies_open = false;
    } else if str_eq_ignore_case(l, "emailaddresses") || str_eq_ignore_case(l, "phonenumbers")
        || str_eq_ignore_case(l, "imaddresses") || str_eq_ignore_case(l, "physicaladdresses") {
        st.container = None;
    } else if str_eq_ignore_case(l, "entry") {
        match st.address.take() {
            Some(a) => {
                push_address(&mut st.item.addresses, a);
            },
            None => {},
        }
        st.entry_key = None;
    } else if address_field(l).is_some() {
        st.address_text = None;
    }
    st.target = None;
    st
}

fn apply_contact_step(st: ContactState, e: &XmlStep) -> (r: ContactState)
    requires
        match e@ {
            XmlStepV::Start(ns, name, _) => !contact_is_attachment(st@, ns, name),
            XmlStepV::Empty(ns, name, _) => !contact_is_attachment(st@, ns, name),
            _ => true,
        },
    ensures
        match e@ {
            XmlStepV::Start(ns, name, attrs) => r@ == contact_tag(st@, ns, name, attrs, false),
            XmlStepV::Empty(ns, name, attrs) => r@ == contact_tag(st@, ns, name, attrs, true),
            XmlStepV::End(_, name) => r@ == contact_end(st@, name),
            XmlStepV::Text(t) => r@ == contact_text(st@, t),
            XmlStepV::CData(t) => r@ == contact_text(st@, t),
            _ => r@ == st@,
        },
{
    match e {
        XmlStep::Start(ns, name, attrs) => apply_contact_tag(st, ns, name.as_str(), attrs.as_str(), false),
        XmlStep::Empty(ns, name, attrs) => apply_contact_tag(st, ns, name.as_str(), attrs.as_str(), true),
        XmlStep::End(_, name) => apply_contact_end(st, name.as_str()),
        XmlStep::Text(t) => apply_contact_text(st, t.as_str()),
        XmlStep::CData(t) => apply_contact_text(st, t.as_str()),
        _ => st,
    }
}

/// A contact read from the inner markup of a response message.
pub fn parse_contact_item(inner_xml: &str) -> (r: Result<ContactItemRaw, EwsError>)
    ensures
        match contact_spec(text_steps(inner_xml@, false), 0, contact_start()) {
            Ok(v) => r matches Ok(x) && x@ == v,
            Err(e) => r matches Err(EwsError::Xml(m)) && m@ == e,
        },
{
    let steps = xml_steps(inner_xml.as_bytes(), false);
    let ghost s = steps_view(steps@);
    let n = steps.len();
    let mut st = ContactState {
        item: ContactItemRaw {
            id: no_id(),
            parent_folder_id: None,
            display_name: None,
            given_name: None,
            middle_name: None,
            surname: None,
            initials: None,
            nickname: None,
            company_name: None,
            department: None,
            job_title: None,
            generation: None,
            office_location: None,
            url: None,
            birthday: None,
            wedding_anniversary: None,
            manager: None,
            spouse: None,
            assistant: None,
            profession: None,
            postal_address_index: None,
            notes: None,
            created: None,
            last_modified: None,
            categories: Vec::new(),
            emails: Vec::new(),
            phones: Vec::new(),
            addresses: Vec::new(),
            ims: Vec::new(),
            children: Vec::new(),
            companies: Vec::new(),
            attachments: Vec::new(),
        },
        target: None,
        categories_open: false,
        children_open: false,
        companies_open: false,
        container: None,
        entry_key: None,
        address: None,
        address_text: None,
        seen_root: false,
    };
    assert(st@.item =~= no_contact()) by {
        assert(strings_view(st.item.categories@) =~= Seq::<Seq<char>>::empty());
        assert(strings_view(st.item.children@) =~= Seq::<Seq<char>>::empty());
        assert(strings_view(st.item.companies@) =~= Seq::<Seq<char>>::empty());
        assert(pairs_view(st.item.emails@) =~= Seq::<(Seq<char>, Seq<char>)>::empty());
        assert(pairs_view(st.item.phones@) =~= Seq::<(Seq<char>, Seq<char>)>::empty());
        assert(pairs_view(st.item.ims@) =~= Seq::<(Seq<char>, Seq<char>)>::empty());
        assert(addresses_view(st.item.addresses@) =~= Seq::<AddressV>::empty());
        assert(attachments_view(st.item.attachments@) =~= Seq::<AttachmentV>::empty());
    }
    let mut k: usize = 0;
    loop
        invariant
            s == steps_view(steps@),
            s == text_steps(inner_xml@, false),
            s.len() == steps@.len(),
            n == s.len(),
            well_ended(s),
            k < s.len(),
            contact_spec(s, 0, contact_start()) == contact_spec(s, k as int, st@),
        decreases s.len() - k,
    {
        assert(s[k as int] == steps@[k as int]@);
        let opener: Option<(&String, bool)> = match &steps[k] {
            XmlStep::Start(ns, name, _) => if contact_opens_attachment(&st, ns, name.as_str()) {
                Some((name, false))
            } else {
                None
            },
            XmlStep::Empty(ns, name, _) => if contact_opens_attachment(&st, ns, name.as_str()) {
                Some((name, true))
            } else {
                None
            },
            _ => None,
        };
        if let Some((name, empty)) = opener {
            proof { lemma_next(s, k as int); }
            let l = local_name_of(name.as_str());
            match parse_attachment_ref(&steps, k + 1, l.as_str()) {
                Err(m) => {
                    return Err(EwsError::Xml(m));
                },
                Ok((a, j)) => {
                    push_attachment(&mut st.item.attachments, a);
                    if empty {
                        st.target = None;
                        st.address_text = None;
                    }
                    k = j;
                },
            }
        } else {
            match &steps[k] {
                XmlStep::Eof => {
                    return Ok(st.item);
                },
                XmlStep::Failed(m) => {
                    return Err(EwsError::Xml(m.clone()));
                },
                _ => {
                    proof { lemma_next(s, k as int); }
                    st = apply_contact_step(st, &steps[k]);
                    k = k + 1;
                },
            }
        }
    }
}


// ---------------------------------------------------------------------------
// Calendar items

/// An occurrence of a recurring series that was moved or deleted.
#[derive(Debug, Clone, Default)]
pub struct RawOccurrence {
    pub item_id: ItemId,
    pub start: Option<String>,
    pub end: Option<String>,
    pub original_start: Option<String>,
}

pub struct OccurrenceV {
    pub id: Seq<char>,
    pub change_key: Seq<char>,
    pub start: Option<Seq<char>>,
    pub end: Option<Seq<char>>,
    pub original_start: Option<Seq<char>>,
}

impl View for RawOccurrence {
    type V = OccurrenceV;

    open spec fn view(&self) -> OccurrenceV {
        OccurrenceV {
            id: self.item_id.id@,
            change_key: self.item_id.change_key@,
            start: opt_string_view(self.start),
            end: opt_string_view(self.end),
            original_start: opt_string_view(self.original_start),
        }
    }
}

pub open spec fn occurrences_view(v: Seq<RawOccurrence>) -> Seq<OccurrenceV> {
    v.map_values(|o: RawOccurrence| o@)
}

/// An attendee of a meeting.
#[derive(Debug, Clone, Default)]
pub struct RawAttendee {
    pub email: Option<String>,
    pub name: Option<String>,
    pub response_type: Option<String>,
}

pub struct AttendeeV {
    pub email: Option<Seq<char>>,
    pub name: Option<Seq<char>>,
    pub response_type: Option<Seq<char>>,
}

impl View for RawAttendee {
    type V = AttendeeV;

    open spec fn view(&self) -> AttendeeV {
        AttendeeV {
            email: opt_string_view(self.email),
            name: opt_string_view(self.name),
            response_type: opt_string_view(self.response_type),
        }
    }
}

pub open spec fn attendees_view(v: Seq<RawAttendee>) -> Seq<AttendeeV> {
    v.map_values(|a: RawAttendee| a@)
}

/// How a series repeats.
#[derive(Debug, Clone)]
pub enum RecurrencePattern {
    Daily { interval: u32 },
    Weekly { interval: u32, days_of_week: Vec<String> },
    AbsoluteMonthly { interval: u32, day_of_month: u32 },
    RelativeMonthly { interval: u32, day_of_week_index: String, days_of_week: Vec<String> },
    AbsoluteYearly { month: String, day_of_month: u32 },
    RelativeYearly { month: String, day_of_week_index: String, days_of_week: Vec<String> },
}

pub enum PatternV {
    Daily { interval: u32 },
    Weekly { interval: u32, days_of_week: Seq<Seq<char>> },
    AbsoluteMonthly { interval: u32, day_of_month: u32 },
    RelativeMonthly { interval: u32, day_of_week_index: Seq<char>, days_of_week: Seq<Seq<char>> },
    AbsoluteYearly { month: Seq<char>, day_of_month: u32 },
    RelativeYearly { month: Seq<char>, day_of_week_index: Seq<char>, days_of_week: Seq<Seq<char>> },
}

impl View for RecurrencePattern {
    type V = PatternV;

    open spec fn view(&self) -> PatternV {
        match self {
            RecurrencePattern::Daily { interval } => PatternV::Daily { interval: *interval },
            RecurrencePattern::Weekly { interval, days_of_week } => PatternV::Weekly {
                interval: *interval,
                days_of_week: strings_view(days_of_week@),
            },
            RecurrencePattern::AbsoluteMonthly { interval, day_of_month } => PatternV::AbsoluteMonthly {
                interval: *interval,
                day_of_month: *day_of_month,
            },
            RecurrencePattern::RelativeMonthly { interval, day_of_week_index, days_of_week } => PatternV::RelativeMonthly {
                interval: *interval,
                day_of_week_index: day_of_week_index@,
                days_of_week: strings_view(days_of_week@),
            },
            RecurrencePattern::AbsoluteYearly { month, day_of_month } => PatternV::AbsoluteYearly {
                month: month@,
                day_of_month: *day_of_month,
            },
            RecurrencePattern::RelativeYearly { month, day_of_week_index, days_of_week } => PatternV::RelativeYearly {
                month: month@,
                day_of_week_index: day_of_week_index@,
                days_of_week: strings_view(days_of_week@),
            },
        }
    }
}

/// How long a series runs.
#[derive(Debug, Clone)]
pub enum RecurrenceRange {
    NoEnd { start_date: String },
    EndDate { start_date: String, end_date: String },
    Numbered { start_date: String, number_of_occurrences: u32 },
}

pub enum RangeV {
    NoEnd { start_date: Seq<char> },
    EndDate { start_date: Seq<char>, end_date: Seq<char> },
    Numbered { start_date: Seq<char>, number_of_occurrences: u32 },
}

impl View for RecurrenceRange {
    type V = RangeV;

    open spec fn view(&self) -> RangeV {
        match self {
            RecurrenceRange::NoEnd { start_date } => RangeV::NoEnd { start_date: start_date@ },
            RecurrenceRange::EndDate { start_date, end_date } => RangeV::EndDate {
                start_date: start_date@,
                end_date: end_date@,
            },
            RecurrenceRange::Numbered { start_date, number_of_occurrences } => RangeV::Numbered {
                start_date: start_date@,
                number_of_occurrences: *number_of_occurrences,
            },
        }
    }
}

/// The recurrence of a series master.
#[derive(Debug, Clone, Default)]
pub struct RawRecurrence {
    pub pattern: Option<RecurrencePattern>,
    pub range: Option<RecurrenceRange>,
}

pub struct RecurrenceV {
    pub pattern: Option<PatternV>,
    pub range: Option<RangeV>,
}

impl View for RawRecurrence {
    type V = RecurrenceV;

    open spec fn view(&self) -> RecurrenceV {
        RecurrenceV {
            pattern: match self.pattern {
                Some(p) => Some(p@),
                None => None,
            },
            range: match self.range {
                Some(r) => Some(r@),
                None => None,
            },
        }
    }
}

/// A calendar item read from the inner markup of a response message.
#[derive(Debug, Clone, Default)]
pub struct CalendarItemRaw {
    pub element: String,
    pub id: ItemId,
    pub parent_folder_id: Option<String>,
    pub uid: Option<String>,
    pub subject: Option<String>,
    pub start: Option<String>,
    pub end: Option<String>,
    pub original_start: Option<String>,
    pub is_all_day_event: Option<bool>,
    pub legacy_free_busy_status: Option<String>,
    pub location: Option<String>,
    pub calendar_item_type: Option<CalendarItemType>,
    pub recurrence_id: Option<String>,
    pub start_tz: Option<String>,
    pub end_tz: Option<String>,
    pub recurrence: Option<RawRecurrence>,
    pub modified_occurrences: Vec<RawOccurrence>,
    pub deleted_occurrences: Vec<RawOccurrence>,
    pub organizer_smtp: Option<String>,
    pub organizer_name: Option<String>,
    pub required_attendees: Vec<RawAttendee>,
    pub optional_attendees: Vec<RawAttendee>,
    pub categories: Vec<String>,
    pub created: Option<String>,
    pub last_modified: Option<String>,
    pub body_text: Option<String>,
    pub body_html: Option<String>,
    pub attachments: Vec<RawAttachmentRef>,
}

pub struct CalendarV {
    pub element: Seq<char>,
    pub id: Seq<char>,
    pub change_key: Seq<char>,
    pub parent_folder_id: Option<Seq<char>>,
    pub uid: Option<Seq<char>>,
    pub subject: Option<Seq<char>>,
    pub start: Option<Seq<char>>,
    pub end: Option<Seq<char>>,
    pub original_start: Option<Seq<char>>,
    pub is_all_day_event: Option<bool>,
    pub legacy_free_busy_status: Option<Seq<char>>,
    pub location: Option<Seq<char>>,
    pub calendar_item_type: Option<CalendarItemType>,
    pub recurrence_id: Option<Seq<char>>,
    pub start_tz: Option<Seq<char>>,
    pub end_tz: Option<Seq<char>>,
    pub recurrence: Option<RecurrenceV>,
    pub modified_occurrences: Seq<OccurrenceV>,
    pub deleted_occurrences: Seq<OccurrenceV>,
    pub organizer_smtp: Option<Seq<char>>,
    pub organizer_name: Option<Seq<char>>,
    pub required_attendees: Seq<AttendeeV>,
    pub optional_attendees: Seq<AttendeeV>,
    pub categories: Seq<Seq<char>>,
    pub created: Option<Seq<char>>,
    pub last_modified: Option<Seq<char>>,
    pub body_text: Option<Seq<char>>,
    pub body_html: Option<Seq<char>>,
    pub attachments: Seq<AttachmentV>,
}

impl View for CalendarItemRaw {
    type V = CalendarV;

    open spec fn view(&self) -> CalendarV {
        CalendarV {
            element: self.element@,
            id: self.id.id@,
            change_key: self.id.change_key@,
            parent_folder_id: opt_string_view(self.parent_folder_id),
            uid: opt_string_view(self.uid),
            subject: opt_string_view(self.subject),
            start: opt_string_view(self.start),
            end: opt_string_view(self.end),
            original_start: opt_string_view(self.original_start),
            is_all_day_event: self.is_all_day_event,
            legacy_free_busy_status: opt_string_view(self.legacy_free_busy_status),
            location: opt_string_view(self.location),
            calendar_item_type: self.calendar_item_type,
            recurrence_id: opt_string_view(self.recurrence_id),
            start_tz: opt_string_view(self.start_tz),
            end_tz: opt_string_view(self.end_tz),
            recurrence: match self.recurrence {
                Some(r) => Some(r@),
                None => None,
            },
            modified_occurrences: occurrences_view(self.modified_occurrences@),
            deleted_occurrences: occurrences_view(self.deleted_occurrences@),
            organizer_smtp: opt_string_view(self.organizer_smtp),
            organizer_name: opt_string_view(self.organizer_name),
            required_attendees: attendees_view(self.required_attendees@),
            optional_attendees: attendees_view(self.optional_attendees@),
            categories: strings_view(self.categories@),
            created: opt_string_view(self.created),
            last_modified: opt_string_view(self.last_modified),
            body_text: opt_string_view(self.body_text),
            body_html: opt_string_view(self.body_html),
            attachments: attachments_view(self.attachments@),
        }
    }
}

/// The words of `s` between runs of white space, as `str::split_whitespace`
/// gives them: the finished words and the word in progress.
pub open spec fn white_word_state(s: Seq<char>) -> (Seq<Seq<char>>, Seq<char>)
    decreases s.len(),
{
    if s.len() == 0 {
        (Seq::empty(), Seq::empty())
    } else {
        let (done, cur) = white_word_state(s.drop_last());
        if is_white_space(s.last()) {
            if cur.len() > 0 {
                (done.push(cur), Seq::empty())
            } else {
                (done, Seq::empty())
            }
        } else {
            (done, cur.push(s.last()))
        }
    }
}

pub open spec fn white_words(s: Seq<char>) -> Seq<Seq<char>> {
    let (done, cur) = white_word_state(s);
    if cur.len() > 0 { done.push(cur) } else { done }
}

#[derive(Debug, Clone, Copy, PartialEq, Eq, Structural)]
pub enum PatternKind {
    Daily,
    Weekly,
    AbsoluteMonthly,
    RelativeMonthly,
    AbsoluteYearly,
    RelativeYearly,
}

#[derive(Debug, Clone, Copy, PartialEq, Eq, Structural)]
pub enum RangeKind {
    NoEnd,
    EndDate,
    Numbered,
}

/// The parts of a recurrence whose text is read.
#[derive(Debug, Clone, Copy, PartialEq, Eq, Structural)]
pub enum RecurrenceField {
    Interval,
    DaysOfWeek,
    DayOfMonth,
    DayOfWeekIndex,
    Month,
    StartDate,
    EndDate,
    NumberOfOccurrences,
}

/// What has been read of a recurrence.
pub struct PendingV {
    pub pattern: Option<PatternKind>,
    pub range: Option<RangeKind>,
    pub interval: u32,
    pub days_of_week: Seq<Seq<char>>,
    pub day_of_month: u32,
    pub day_of_week_index: Seq<char>,
    pub month: Seq<char>,
    pub start_date: Seq<char>,
    pub end_date: Seq<char>,
    pub number_of_occurrences: u32,
}

pub open spec fn no_pending() -> PendingV {
    PendingV {
        pattern: None,
        range: None,
        interval: 0,
        days_of_week: Seq::empty(),
        day_of_month: 0,
        day_of_week_index: Seq::empty(),
        month: Seq::empty(),
        start_date: Seq::empty(),
        end_date: Seq::empty(),
        number_of_occurrences: 0,
    }
}

/// The recurrence that what was read describes; an interval of 0 counts as 1.
pub open spec fn finished_recurrence(p: PendingV) -> RecurrenceV {
    let interval: u32 = if p.interval == 0 { 1 } else { p.interval };
    RecurrenceV {
        pattern: match p.pattern {
            Some(PatternKind::Daily) => Some(PatternV::Daily { interval }),
            Some(PatternKind::Weekly) => Some(PatternV::Weekly { interval, days_of_week: p.days_of_week }),
            Some(PatternKind::AbsoluteMonthly) => Some(PatternV::AbsoluteMonthly { interval, day_of_month: p.day_of_month }),
            Some(PatternKind::RelativeMonthly) => Some(PatternV::RelativeMonthly {
                interval,
                day_of_week_index: p.day_of_week_index,
                days_of_week: p.days_of_week,
            }),
            Some(PatternKind::AbsoluteYearly) => Some(PatternV::AbsoluteYearly { month: p.month, day_of_month: p.day_of_month }),
            Some(PatternKind::RelativeYearly) => Some(PatternV::RelativeYearly {
                month: p.month,
                day_of_week_index: p.day_of_week_index,
                days_of_week: p.days_of_week,
            }),
            None => None,
        },
        range: match p.range {
            Some(RangeKind::NoEnd) => Some(RangeV::NoEnd { start_date: p.start_date }),
            Some(RangeKind::EndDate) => Some(RangeV::EndDate { start_date: p.start_date, end_date: p.end_date }),
            Some(RangeKind::Numbered) => Some(RangeV::Numbered {
                start_date: p.start_date,
                number_of_occurrences: p.number_of_occurrences,
            }),
            None => None,
        },
    }
}

/// The text fields of a calendar item and of its parts.
#[derive(Debug, Clone, Copy, PartialEq, Eq, Structural)]
pub enum CalendarTarget {
    Uid,
    Subject,
    Start,
    End,
    OriginalStart,
    IsAllDay,
    FreeBusy,
    Location,
    ItemType,
    RecurrenceId,
    OrganizerName,
    OrganizerEmail,
    AttendeeName,
    AttendeeEmail,
    AttendeeResponse,
    Category,
    Created,
    LastModified,
    BodyText,
    BodyHtml,
    OccurrenceStart,
    OccurrenceEnd,
    OccurrenceOriginalStart,
}

#[derive(Debug, Clone, Copy, PartialEq, Eq, Structural)]
pub enum AttendeeKind {
    Required,
    Optional,
}

/// What has been read of a calendar item.
pub struct CalSt {
    pub item: CalendarV,
    pub target: Option<CalendarTarget>,
    pub categories_open: bool,
    pub attendee_kind: Option<AttendeeKind>,
    pub attendee: Option<AttendeeV>,
    pub in_mailbox: bool,
    pub in_organizer: bool,
    pub occurrences: Seq<OccurrenceV>,
    pub deleted: Seq<OccurrenceV>,
    pub in_modified: bool,
    pub in_deleted: bool,
    pub depth: nat,
    pub rec_text: Option<RecurrenceField>,
    pub pending: PendingV,
}

pub open spec fn no_occurrence() -> OccurrenceV {
    OccurrenceV { id: Seq::empty(), change_key: Seq::empty(), start: None, end: None, original_start: None }
}

pub open spec fn no_attendee() -> AttendeeV {
    AttendeeV { email: None, name: None, response_type: None }
}

/// The parts of an occurrence that are filled in while it is open.
#[derive(Debug, Clone, Copy, PartialEq, Eq, Structural)]
pub enum OccurrenceField {
    Start,
    End,
    OriginalStart,
}

/// The stack with its top occurrence's field set; an empty stack stays empty.
pub open spec fn set_top(v: Seq<OccurrenceV>, f: OccurrenceField, t: Seq<char>) -> Seq<OccurrenceV> {
    if v.len() == 0 {
        v
    } else {
        let o = v.last();
        v.update(v.len() - 1, match f {
            OccurrenceField::Start => OccurrenceV { start: Some(t), ..o },
            OccurrenceField::End => OccurrenceV { end: Some(t), ..o },
            OccurrenceField::OriginalStart => OccurrenceV { original_start: Some(t), ..o },
        })
    }
}

/// The stack with its top occurrence's id taken from a tag's attributes.
pub open spec fn set_top_id(v: Seq<OccurrenceV>, attrs: Seq<char>) -> Seq<OccurrenceV> {
    if v.len() == 0 {
        v
    } else {
        let o = v.last();
        let (id, ck) = id_attrs(attrs_of(attrs), o.id, o.change_key);
        v.update(v.len() - 1, OccurrenceV { id, change_key: ck, ..o })
    }
}

/// A tag inside a recurrence.
pub open spec fn cal_rec_tag(st: CalSt, l: Seq<char>, empty: bool) -> CalSt {
    let p = st.pending;
    let st = CalSt { depth: st.depth + 1, ..st };
    let st = if eq_ignore_case(l, "Interval"@) {
        CalSt { rec_text: Some(RecurrenceField::Interval), ..st }
    } else if eq_ignore_case(l, "DaysOfWeek"@) {
        CalSt { rec_text: Some(RecurrenceField::DaysOfWeek), ..st }
    } else if eq_ignore_case(l, "DayOfMonth"@) {
        CalSt { rec_text: Some(RecurrenceField::DayOfMonth), ..st }
    } else if eq_ignore_case(l, "DayOfWeekIndex"@) {
        CalSt { rec_text: Some(RecurrenceField::DayOfWeekIndex), ..st }
    } else if eq_ignore_case(l, "Month"@) {
        CalSt { rec_text: Some(RecurrenceField::Month), ..st }
    } else if eq_ignore_case(l, "StartDate"@) {
        CalSt { rec_text: Some(RecurrenceField::StartDate), ..st }
    } else if eq_ignore_case(l, "EndDate"@) {
        CalSt { rec_text: Some(RecurrenceField::EndDate), ..st }
    } else if eq_ignore_case(l, "NumberOfOccurrences"@) {
        CalSt { rec_text: Some(RecurrenceField::NumberOfOccurrences), ..st }
    } else if eq_ignore_case(l, "DailyRecurrence"@) {
        CalSt { pending: PendingV { pattern: Some(PatternKind::Daily), ..p }, ..st }
    } else if eq_ignore_case(l, "WeeklyRecurrence"@) {
        CalSt { pending: PendingV { pattern: Some(PatternKind::Weekly), ..p }, ..st }
    } else if eq_ignore_case(l, "AbsoluteMonthlyRecurrence"@) {
        CalSt { pending: PendingV { pattern: Some(PatternKind::AbsoluteMonthly), ..p }, ..st }
    } else if eq_ignore_case(l, "RelativeMonthlyRecurrence"@) {
        CalSt { pending: PendingV { pattern: Some(PatternKind::RelativeMonthly), ..p }, ..st }
    } else if eq_ignore_case(l, "AbsoluteYearlyRecurrence"@) {
        CalSt { pending: PendingV { pattern: Some(PatternKind::AbsoluteYearly), ..p }, ..st }
    } else if eq_ignore_case(l, "RelativeYearlyRecurrence"@) {
        CalSt { pending: PendingV { pattern: Some(PatternKind::RelativeYearly), ..p }, ..st }
    } else if eq_ignore_case(l, "NoEndRecurrence"@) {
        CalSt { pending: PendingV { range: Some(RangeKind::NoEnd), ..p }, ..st }
    } else if eq_ignore_case(l, "EndDateRecurrence"@) {
        CalSt { pending: PendingV { range: Some(RangeKind::EndDate), ..p }, ..st }
    } else if eq_ignore_case(l, "NumberedRecurrence"@) {
        CalSt { pending: PendingV { range: Some(RangeKind::Numbered), ..p }, ..st }
    } else {
        CalSt { rec_text: None, ..st }
    };
    if empty { CalSt { depth: (st.depth - 1) as nat, rec_text: None, ..st } } else { st }
}

/// A tag of the item itself: ids, times and the parts of a series.
pub open spec fn cal_item_tag(st: CalSt, l: Seq<char>, attrs: Seq<char>) -> CalSt {
    let it = st.item;
    let occ = st.in_modified || st.in_deleted;
    if eq_ignore_case(l, "ItemId"@) {
        if st.in_modified {
            CalSt { occurrences: set_top_id(st.occurrences, attrs), ..st }
        } else if st.in_deleted {
            CalSt { deleted: set_top_id(st.deleted, attrs), ..st }
        } else {
            let (id, ck) = id_attrs(attrs_of(attrs), it.id, it.change_key);
            CalSt { item: CalendarV { id, change_key: ck, ..it }, ..st }
        }
    } else if eq_ignore_case(l, "ParentFolderId"@) {
        CalSt { item: CalendarV { parent_folder_id: parent_of(attrs, it.parent_folder_id), ..it }, ..st }
    } else if eq_ignore_case(l, "UID"@) {
        CalSt { target: Some(CalendarTarget::Uid), ..st }
    } else if eq_ignore_case(l, "Subject"@) {
        CalSt { target: Some(CalendarTarget::Subject), ..st }
    } else if eq_ignore_case(l, "Start"@) {
        CalSt { target: Some(if occ { CalendarTarget::OccurrenceStart } else { CalendarTarget::Start }), ..st }
    } else if eq_ignore_case(l, "End"@) {
        CalSt { target: Some(if occ { CalendarTarget::OccurrenceEnd } else { CalendarTarget::End }), ..st }
    } else if eq_ignore_case(l, "OriginalStart"@) {
        CalSt { target: Some(if occ { CalendarTarget::OccurrenceOriginalStart } else { CalendarTarget::OriginalStart }), ..st }
    } else if eq_ignore_case(l, "IsAllDayEvent"@) {
        CalSt { target: Some(CalendarTarget::IsAllDay), ..st }
    } else if eq_ignore_case(l, "LegacyFreeBusyStatus"@) {
        CalSt { target: Some(CalendarTarget::FreeBusy), ..st }
    } else if eq_ignore_case(l, "Location"@) {
        CalSt { target: Some(CalendarTarget::Location), ..st }
    } else if eq_ignore_case(l, "CalendarItemType"@) {
        CalSt { target: Some(CalendarTarget::ItemType), ..st }
    } else if eq_ignore_case(l, "RecurrenceId"@) {
        CalSt { target: Some(CalendarTarget::RecurrenceId), ..st }
    } else if eq_ignore_case(l, "StartTimeZone"@) {
        match attr_in(attrs_of(attrs), "Id"@) {
            Some(v) => CalSt { item: CalendarV { start_tz: Some(v), ..it }, ..st },
            None => st,
        }
    } else if eq_ignore_case(l, "EndTimeZone"@) {
        match attr_in(attrs_of(attrs), "Id"@) {
            Some(v) => CalSt { item: CalendarV { end_tz: Some(v), ..it }, ..st },
            None => st,
        }
    } else if eq_ignore_case(l, "Recurrence"@) {
        CalSt { depth: st.depth + 1, ..st }
    } else if eq_ignore_case(l, "ModifiedOccurrences"@) {
        CalSt { in_modified: true, ..st }
    } else if eq_ignore_case(l, "DeletedOccurrences"@) {
        CalSt { in_deleted: true, ..st }
    } else if eq_ignore_case(l, "Occurrence"@) {
        let (id, ck) = id_attrs(attrs_of(attrs), Seq::empty(), Seq::empty());
        CalSt { occurrences: st.occurrences.push(OccurrenceV { id, change_key: ck, ..no_occurrence() }), ..st }
    } else if eq_ignore_case(l, "DeletedOccurrence"@) {
        CalSt { deleted: st.deleted.push(no_occurrence()), ..st }
    } else {
        cal_people_tag(st, l, attrs)
    }
}

/// A tag about people, categories, the body, or one that is not read.
pub open spec fn cal_people_tag(st: CalSt, l: Seq<char>, attrs: Seq<char>) -> CalSt {
    if eq_ignore_case(l, "Organizer"@) {
        CalSt { in_organizer: true, ..st }
    } else if eq_ignore_case(l, "RequiredAttendees"@) {
        CalSt { attendee_kind: Some(AttendeeKind::Required), ..st }
    } else if eq_ignore_case(l, "OptionalAttendees"@) {
        CalSt { attendee_kind: Some(AttendeeKind::Optional), ..st }
    } else if eq_ignore_case(l, "Attendee"@) && st.attendee_kind is Some {
        CalSt { attendee: Some(no_attendee()), ..st }
    } else if eq_ignore_case(l, "Mailbox"@) {
        CalSt { in_mailbox: true, ..st }
    } else if eq_ignore_case(l, "Name"@) && st.in_mailbox {
        CalSt { target: Some(if st.in_organizer { CalendarTarget::OrganizerName } else { CalendarTarget::AttendeeName }), ..st }
    } else if eq_ignore_case(l, "EmailAddress"@) && st.in_mailbox {
        CalSt { target: Some(if st.in_organizer { CalendarTarget::OrganizerEmail } else { CalendarTarget::AttendeeEmail }), ..st }
    } else if eq_ignore_case(l, "ResponseType"@) && st.attendee is Some {
        CalSt { target: Some(CalendarTarget::AttendeeResponse), ..st }
    } else if eq_ignore_case(l, "Categories"@) {
        CalSt { categories_open: true, ..st }
    } else if st.categories_open && eq_ignore_case(l, "String"@) {
        CalSt { target: Some(CalendarTarget::Category), ..st }
    } else if eq_ignore_case(l, "DateTimeCreated"@) {
        CalSt { target: Some(CalendarTarget::Created), ..st }
    } else if eq_ignore_case(l, "LastModifiedTime"@) {
        CalSt { target: Some(CalendarTarget::LastModified), ..st }
    } else if eq_ignore_case(l, "Body"@) {
        let body_type = match attr_in(attrs_of(attrs), "BodyType"@) {
            Some(v) => v,
            None => Seq::empty(),
        };
        CalSt { target: Some(if eq_ignore_case(body_type, "HTML"@) { CalendarTarget::BodyHtml } else { CalendarTarget::BodyText }), ..st }
    } else if attachment_element(l) {
        st
    } else {
        CalSt { target: None, ..st }
    }
}

/// The effect of a tag that does not open an attachment.
pub open spec fn cal_tag(st: CalSt, ns: Option<Seq<char>>, name: Seq<char>, attrs: Seq<char>, empty: bool) -> CalSt {
    let l = local_name(name);
    if st.item.element.len() == 0 && item_element(l) {
        CalSt { item: CalendarV { element: l, ..st.item }, ..st }
    } else if ews_ns(ns) != Ns::Types {
        st
    } else if st.depth > 0 {
        cal_rec_tag(st, l, empty)
    } else {
        let st = cal_item_tag(st, l, attrs);
        if empty { CalSt { target: None, ..st } } else { st }
    }
}

/// Whether a tag opens an attachment, which is read in full.
pub open spec fn cal_is_attachment(st: CalSt, ns: Option<Seq<char>>, name: Seq<char>) -> bool {
    let l = local_name(name);
    &&& !(st.item.element.len() == 0 && item_element(l))
    &&& ews_ns(ns) == Ns::Types
    &&& st.depth == 0
    &&& attachment_element(l)
}

pub open spec fn cal_with_attachment(st: CalSt, a: AttachmentV, empty: bool) -> CalSt {
    let st = CalSt { item: CalendarV { attachments: st.item.attachments.push(a), ..st.item }, ..st };
    if empty { CalSt { target: None, ..st } } else { st }
}

/// The item with a closed attendee filed under its kind.
pub open spec fn file_attendee(it: CalendarV, kind: Option<AttendeeKind>, a: AttendeeV) -> CalendarV {
    match kind {
        Some(AttendeeKind::Required) => CalendarV { required_attendees: it.required_attendees.push(a), ..it },
        Some(AttendeeKind::Optional) => CalendarV { optional_attendees: it.optional_attendees.push(a), ..it },
        None => it,
    }
}

pub open spec fn cal_end(st: CalSt, name: Seq<char>) -> CalSt {
    let l = local_name(name);
    let it = st.item;
    if st.depth > 0 {
        let d = (st.depth - 1) as nat;
        if d == 0 {
            CalSt {
                depth: d,
                item: CalendarV { recurrence: Some(finished_recurrence(st.pending)), ..it },
                pending: no_pending(),
                rec_text: None,
                ..st
            }
        } else {
            CalSt { depth: d, rec_text: None, ..st }
        }
    } else {
        let st = if eq_ignore_case(l, "modifiedoccurrences"@) {
            CalSt { in_modified: false, ..st }
        } else if eq_ignore_case(l, "deletedoccurrences"@) {
            CalSt { in_deleted: false, ..st }
        } else if eq_ignore_case(l, "occurrence"@) {
            if st.occurrences.len() > 0 {
                CalSt {
                    item: CalendarV { modified_occurrences: it.modified_occurrences.push(st.occurrences.last()), ..it },
                    occurrences: st.occurrences.drop_last(),
                    ..st
                }
            } else {
                st
            }
        } else if eq_ignore_case(l, "deletedoccurrence"@) {
            if st.deleted.len() > 0 {
                CalSt {
                    item: CalendarV { deleted_occurrences: it.deleted_occurrences.push(st.deleted.last()), ..it },
                    deleted: st.deleted.drop_last(),
                    ..st
                }
            } else {
                st
            }
        } else if eq_ignore_case(l, "attendee"@) {
            match st.attendee {
                Some(a) => CalSt { item: file_attendee(it, st.attendee_kind, a), attendee: None, ..st },
                None => st,
            }
        } else if eq_ignore_case(l, "requiredattendees"@) || eq_ignore_case(l, "optionalattendees"@) {
            CalSt { attendee_kind: None, ..st }
        } else if eq_ignore_case(l, "organizer"@) {
            CalSt { in_organizer: false, ..st }
        } else if eq_ignore_case(l, "mailbox"@) {
            CalSt { in_mailbox: false, ..st }
        } else if eq_ignore_case(l, "categories"@) {
            CalSt { categories_open: false, ..st }
        } else {
            st
        };
        CalSt { target: None, ..st }
    }
}

/// Text inside a recurrence.
pub open spec fn cal_rec_text(st: CalSt, t: Seq<char>) -> CalSt {
    let p = st.pending;
    let w = trimmed(t);
    match st.rec_text {
        Some(RecurrenceField::Interval) => CalSt { pending: PendingV { interval: match u32_of(w) { Some(v) => v, None => 1 }, ..p }, ..st },
        Some(RecurrenceField::DaysOfWeek) => CalSt { pending: PendingV { days_of_week: p.days_of_week + white_words(t), ..p }, ..st },
        Some(RecurrenceField::DayOfMonth) => CalSt { pending: PendingV { day_of_month: match u32_of(w) { Some(v) => v, None => 0 }, ..p }, ..st },
        Some(RecurrenceField::DayOfWeekIndex) => CalSt { pending: PendingV { day_of_week_index: w, ..p }, ..st },
        Some(RecurrenceField::Month) => CalSt { pending: PendingV { month: w, ..p }, ..st },
        Some(RecurrenceField::StartDate) => CalSt { pending: PendingV { start_date: w, ..p }, ..st },
        Some(RecurrenceField::EndDate) => CalSt { pending: PendingV { end_date: w, ..p }, ..st },
        Some(RecurrenceField::NumberOfOccurrences) => CalSt {
            pending: PendingV { number_of_occurrences: match u32_of(w) { Some(v) => v, None => 0 }, ..p },
            ..st
        },
        None => st,
    }
}

/// Text of the item's own fields.
pub open spec fn cal_item_text(st: CalSt, t: Seq<char>) -> CalSt {
    let it = st.item;
    match st.target {
        Some(CalendarTarget::Uid) => CalSt { item: CalendarV { uid: Some(t), ..it }, ..st },
        Some(CalendarTarget::Subject) => CalSt { item: CalendarV { subject: Some(t), ..it }, ..st },
        Some(CalendarTarget::Start) => CalSt { item: CalendarV { start: Some(t), ..it }, ..st },
        Some(CalendarTarget::End) => CalSt { item: CalendarV { end: Some(t), ..it }, ..st },
        Some(CalendarTarget::OriginalStart) => CalSt { item: CalendarV { original_start: Some(t), ..it }, ..st },
        Some(CalendarTarget::IsAllDay) => CalSt { item: CalendarV { is_all_day_event: Some(truthy(t)), ..it }, ..st },
        Some(CalendarTarget::FreeBusy) => CalSt { item: CalendarV { legacy_free_busy_status: Some(t), ..it }, ..st },
        Some(CalendarTarget::Location) => CalSt { item: CalendarV { location: Some(t), ..it }, ..st },
        Some(CalendarTarget::ItemType) => CalSt { item: CalendarV { calendar_item_type: item_type_of(trimmed(t)), ..it }, ..st },
        Some(CalendarTarget::RecurrenceId) => CalSt { item: CalendarV { recurrence_id: Some(t), ..it }, ..st },
        Some(CalendarTarget::OrganizerName) => CalSt { item: CalendarV { organizer_name: Some(t), ..it }, ..st },
        Some(CalendarTarget::OrganizerEmail) => CalSt { item: CalendarV { organizer_smtp: Some(t), ..it }, ..st },
        Some(CalendarTarget::Category) => CalSt { item: CalendarV { categories: it.categories.push(t), ..it }, ..st },
        Some(CalendarTarget::Created) => CalSt { item: CalendarV { created: Some(t), ..it }, ..st },
        Some(CalendarTarget::LastModified) => CalSt { item: CalendarV { last_modified: Some(t), ..it }, ..st },
        Some(CalendarTarget::BodyText) => CalSt { item: CalendarV { body_text: appended(it.body_text, t), ..it }, ..st },
        Some(CalendarTarget::BodyHtml) => CalSt { item: CalendarV { body_html: appended(it.body_html, t), ..it }, ..st },
        _ => cal_part_text(st, t),
    }
}

/// Text of an attendee or of an occurrence.
pub open spec fn cal_part_text(st: CalSt, t: Seq<char>) -> CalSt {
    match st.target {
        Some(CalendarTarget::AttendeeName) => match st.attendee {
            Some(a) => CalSt { attendee: Some(AttendeeV { name: Some(t), ..a }), ..st },
            None => st,
        },
        Some(CalendarTarget::AttendeeEmail) => match st.attendee {
            Some(a) => CalSt { attendee: Some(AttendeeV { email: Some(t), ..a }), ..st },
            None => st,
        },
        Some(CalendarTarget::AttendeeResponse) => match st.attendee {
            Some(a) => CalSt { attendee: Some(AttendeeV { response_type: Some(t), ..a }), ..st },
            None => st,
        },
        Some(CalendarTarget::OccurrenceStart) => CalSt {
            occurrences: set_top(st.occurrences, OccurrenceField::Start, t),
            deleted: set_top(st.deleted, OccurrenceField::Start, t),
            ..st
        },
        Some(CalendarTarget::OccurrenceEnd) => CalSt { occurrences: set_top(st.occurrences, OccurrenceField::End, t), ..st },
        Some(CalendarTarget::OccurrenceOriginalStart) => CalSt {
            occurrences: set_top(st.occurrences, OccurrenceField::OriginalStart, t),
            ..st
        },
        _ => st,
    }
}

pub open spec fn cal_text(st: CalSt, t: Seq<char>) -> CalSt {
    if st.depth > 0 { cal_rec_text(st, t) } else { cal_item_text(st, t) }
}

/// Reading a calendar item from step `i`.
pub open spec fn cal_spec(s: Seq<XmlStepV>, i: int, st: CalSt) -> Result<CalendarV, Seq<char>>
    decreases s.len() - i,
{
    if i < 0 || i >= s.len() {
        Ok(st.item)
    } else {
        match s[i] {
            XmlStepV::Start(ns, name, attrs) => if cal_is_attachment(st, ns, name) {
                let (r, j) = att_spec(s, i + 1, att_start(local_name(name)));
                match r {
                    Err(e) => Err(e),
                    Ok(a) => if i < j <= s.len() { cal_spec(s, j, cal_with_attachment(st, a, false)) } else { Ok(st.item) },
                }
            } else {
                cal_spec(s, i + 1, cal_tag(st, ns, name, attrs, false))
            },
            XmlStepV::Empty(ns, name, attrs) => if cal_is_attachment(st, ns, name) {
                let (r, j) = att_spec(s, i + 1, att_start(local_name(name)));
                match r {
                    Err(e) => Err(e),
                    Ok(a) => if i < j <= s.len() { cal_spec(s, j, cal_with_attachment(st, a, true)) } else { Ok(st.item) },
                }
            } else {
                cal_spec(s, i + 1, cal_tag(st, ns, name, attrs, true))
            },
            XmlStepV::End(_, name) => cal_spec(s, i + 1, cal_end(st, name)),
            XmlStepV::Text(t) => cal_spec(s, i + 1, cal_text(st, t)),
            XmlStepV::CData(t) => cal_spec(s, i + 1, cal_text(st, t)),
            XmlStepV::Eof => Ok(st.item),
            XmlStepV::Failed(m) => Err(m),
            XmlStepV::Other => cal_spec(s, i + 1, st),
        }
    }
}

/// `str::split_whitespace`, collected.
fn white_words_of(v: &str) -> (r: Vec<String>)
    ensures
        strings_view(r@) == white_words(v@),
{
    let chars = crate::text::chars_of(v);
    let mut done: Vec<String> = Vec::new();
    let mut cur: Vec<char> = Vec::new();
    let mut i: usize = 0;
    assert(v@.take(0) =~= Seq::<char>::empty());
    assert(strings_view(done@) =~= Seq::<Seq<char>>::empty());
    while i < chars.len()
        invariant
            chars@ == v@,
            i <= chars@.len(),
            strings_view(done@) == white_word_state(v@.take(i as int)).0,
            cur@ == white_word_state(v@.take(i as int)).1,
        decreases chars.len() - i,
    {
        let c = chars[i];
        assert(v@.take(i + 1).drop_last() =~= v@.take(i as int));
        assert(v@.take(i + 1).last() == c);
        if is_ws(c) {
            if cur.len() > 0 {
                let w = crate::text::string_from_chars(&cur);
                push_string(&mut done, w);
                cur = Vec::new();
            }
        } else {
            cur.push(c);
        }
        i += 1;
    }
    assert(v@.take(i as int) =~= v@);
    if cur.len() > 0 {
        let w = crate::text::string_from_chars(&cur);
        push_string(&mut done, w);
    }
    done
}

fn append_strings(v: &mut Vec<String>, w: Vec<String>)
    ensures
        strings_view(final(v)@) == strings_view(old(v)@) + strings_view(w@),
{
    let ghost start = strings_view(v@);
    let mut i: usize = 0;
    let mut w = w;
    while i < w.len()
        invariant
            i <= w@.len(),
            strings_view(v@) == start + strings_view(w@).take(i as int),
        decreases w.len() - i,
    {
        let x = w[i].clone();
        push_string(v, x);
        assert(strings_view(w@).take(i + 1) =~= strings_view(w@).take(i as int).push(w@[i as int]@));
        i += 1;
    }
    assert(strings_view(w@).take(i as int) =~= strings_view(w@));
}

struct PendingRec {
    pattern: Option<PatternKind>,
    range: Option<RangeKind>,
    interval: u32,
    days_of_week: Vec<String>,
    day_of_month: u32,
    day_of_week_index: String,
    month: String,
    start_date: String,
    end_date: String,
    number_of_occurrences: u32,
}

impl View for PendingRec {
    type V = PendingV;

    closed spec fn view(&self) -> PendingV {
        PendingV {
            pattern: self.pattern,
            range: self.range,
            interval: self.interval,
            days_of_week: strings_view(self.days_of_week@),
            day_of_month: self.day_of_month,
            day_of_week_index: self.day_of_week_index@,
            month: self.month@,
            start_date: self.start_date@,
            end_date: self.end_date@,
            number_of_occurrences: self.number_of_occurrences,
        }
    }
}

fn new_pending() -> (r: PendingRec)
    ensures
        r@ == no_pending(),
{
    let r = PendingRec {
        pattern: None,
        range: None,
        interval: 0,
        days_of_week: Vec::new(),
        day_of_month: 0,
        day_of_week_index: String::new(),
        month: String::new(),
        start_date: String::new(),
        end_date: String::new(),
        number_of_occurrences: 0,
    };
    assert(strings_view(r.days_of_week@) =~= Seq::<Seq<char>>::empty());
    r
}

fn finish_recurrence(p: PendingRec) -> (r: RawRecurrence)
    ensures
        r@ == finished_recurrence(p@),
{
    let PendingRec {
        pattern,
        range,
        interval,
        days_of_week,
        day_of_month,
        day_of_week_index,
        month,
        start_date,
        end_date,
        number_of_occurrences,
    } = p;
    let interval: u32 = if interval == 0 { 1 } else { interval };
    let pattern = match pattern {
        Some(PatternKind::Daily) => Some(RecurrencePattern::Daily { interval }),
        Some(PatternKind::Weekly) => Some(RecurrencePattern::Weekly { interval, days_of_week }),
        Some(PatternKind::AbsoluteMonthly) => Some(RecurrencePattern::AbsoluteMonthly { interval, day_of_month }),
        Some(PatternKind::RelativeMonthly) => Some(RecurrencePattern::RelativeMonthly {
            interval,
            day_of_week_index,
            days_of_week,
        }),
        Some(PatternKind::AbsoluteYearly) => Some(RecurrencePattern::AbsoluteYearly { month, day_of_month }),
        Some(PatternKind::RelativeYearly) => Some(RecurrencePattern::RelativeYearly {
            month,
            day_of_week_index,
            days_of_week,
        }),
        None => None,
    };
    let range = match range {
        Some(RangeKind::NoEnd) => Some(RecurrenceRange::NoEnd { start_date }),
        Some(RangeKind::EndDate) => Some(RecurrenceRange::EndDate { start_date, end_date }),
        Some(RangeKind::Numbered) => Some(RecurrenceRange::Numbered { start_date, number_of_occurrences }),
        None => None,
    };
    RawRecurrence { pattern, range }
}

fn push_occurrence(v: &mut Vec<RawOccurrence>, o: RawOccurrence)
    ensures
        occurrences_view(final(v)@) == occurrences_view(old(v)@).push(o@),
{
    let ghost before = occurrences_view(v@);
    let ghost ov = o@;
    v.push(o);
    assert(occurrences_view(v@) =~= before.push(ov));
}

fn pop_occurrence(v: &mut Vec<RawOccurrence>) -> (r: Option<RawOccurrence>)
    ensures
        old(v)@.len() == 0 ==> r is None && final(v)@ == old(v)@,
        old(v)@.len() > 0 ==> (r matches Some(o) && o@ == occurrences_view(old(v)@).last()
            && occurrences_view(final(v)@) == occurrences_view(old(v)@).drop_last()),
{
    let ghost before = occurrences_view(v@);
    let r = v.pop();
    proof {
        if before.len() > 0 {
            assert(occurrences_view(v@) =~= before.drop_last());
        }
    }
    r
}

fn occurrence_top_set(v: &mut Vec<RawOccurrence>, f: OccurrenceField, t: String)
    ensures
        occurrences_view(final(v)@) == set_top(occurrences_view(old(v)@), f, t@),
{
    let ghost before = occurrences_view(v@);
    match pop_occurrence(v) {
        Some(o) => {
            let mut o = o;
            match f {
                OccurrenceField::Start => {
                    o.start = Some(t);
                },
                OccurrenceField::End => {
                    o.end = Some(t);
                },
                OccurrenceField::OriginalStart => {
                    o.original_start = Some(t);
                },
            }
            push_occurrence(v, o);
            assert(occurrences_view(v@) =~= set_top(before, f, t@));
        },
        None => {},
    }
}

fn occurrence_top_id(v: &mut Vec<RawOccurrence>, attrs: &str)
    ensures
        occurrences_view(final(v)@) == set_top_id(occurrences_view(old(v)@), attrs@),
{
    let ghost before = occurrences_view(v@);
    match pop_occurrence(v) {
        Some(o) => {
            let mut o = o;
            let (id, ck) = capture_id_attrs(attrs, o.item_id.id, o.item_id.change_key);
            o.item_id = ItemId { id, change_key: ck };
            push_occurrence(v, o);
            assert(occurrences_view(v@) =~= set_top_id(before, attrs@));
        },
        None => {},
    }
}

fn push_attendee(v: &mut Vec<RawAttendee>, a: RawAttendee)
    ensures
        attendees_view(final(v)@) == attendees_view(old(v)@).push(a@),
{
    let ghost before = attendees_view(v@);
    let ghost av = a@;
    v.push(a);
    assert(attendees_view(v@) =~= before.push(av));
}

struct CalState {
    item: CalendarItemRaw,
    target: Option<CalendarTarget>,
    categories_open: bool,
    attendee_kind: Option<AttendeeKind>,
    attendee: Option<RawAttendee>,
    in_mailbox: bool,
    in_organizer: bool,
    occurrences: Vec<RawOccurrence>,
    deleted: Vec<RawOccurrence>,
    in_modified: bool,
    in_deleted: bool,
    depth: usize,
    rec_text: Option<RecurrenceField>,
    pending: PendingRec,
}

impl View for CalState {
    type V = CalSt;

    closed spec fn view(&self) -> CalSt {
        CalSt {
            item: self.item@,
            target: self.target,
            categories_open: self.categories_open,
            attendee_kind: self.attendee_kind,
            attendee: match self.attendee {
                Some(a) => Some(a@),
                None => None,
            },
            in_mailbox: self.in_mailbox,
            in_organizer: self.in_organizer,
            occurrences: occurrences_view(self.occurrences@),
            deleted: occurrences_view(self.deleted@),
            in_modified: self.in_modified,
            in_deleted: self.in_deleted,
            depth: self.depth as nat,
            rec_text: self.rec_text,
            pending: self.pending@,
        }
    }
}

#[verifier::rlimit(40)]
fn apply_cal_rec_tag(st: CalState, l: &str, empty: bool) -> (r: CalState)
    requires
        st@.depth < usize::MAX,
    ensures
        r@ == cal_rec_tag(st@, l@, empty),
{
    let mut st = st;
    st.depth = st.depth + 1;
    if str_eq_ignore_case(l, "Interval") {
        st.rec_text = Some(RecurrenceField::Interval);
    } else if str_eq_ignore_case(l, "DaysOfWeek") {
        st.rec_text = Some(RecurrenceField::DaysOfWeek);
    } else if str_eq_ignore_case(l, "DayOfMonth") {
        st.rec_text = Some(RecurrenceField::DayOfMonth);
    } else if str_eq_ignore_case(l, "DayOfWeekIndex") {
        st.rec_text = Some(RecurrenceField::DayOfWeekIndex);
    } else if str_eq_ignore_case(l, "Month") {
        st.rec_text = Some(RecurrenceField::Month);
    } else if str_eq_ignore_case(l, "StartDate") {
        st.rec_text = Some(RecurrenceField::StartDate);
    } else if str_eq_ignore_case(l, "EndDate") {
        st.rec_text = Some(RecurrenceField::EndDate);
    } else if str_eq_ignore_case(l, "NumberOfOccurrences") {
        st.rec_text = Some(RecurrenceField::NumberOfOccurrences);
    } else if str_eq_ignore_case(l, "DailyRecurrence") {
        st.pending.pattern = Some(PatternKind::Daily);
    } else if str_eq_ignore_case(l, "WeeklyRecurrence") {
        st.pending.pattern = Some(PatternKind::Weekly);
    } else if str_eq_ignore_case(l, "AbsoluteMonthlyRecurrence") {
        st.pending.pattern = Some(PatternKind::AbsoluteMonthly);
    } else if str_eq_ignore_case(l, "RelativeMonthlyRecurrence") {
        st.pending.pattern = Some(PatternKind::RelativeMonthly);
    } else if str_eq_ignore_case(l, "AbsoluteYearlyRecurrence") {
        st.pending.pattern = Some(PatternKind::AbsoluteYearly);
    } else if str_eq_ignore_case(l, "RelativeYearlyRecurrence") {
        st.pending.pattern = Some(PatternKind::RelativeYearly);
    } else if str_eq_ignore_case(l, "NoEndRecurrence") {
        st.pending.range = Some(RangeKind::NoEnd);
    } else if str_eq_ignore_case(l, "EndDateRecurrence") {
        st.pending.range = Some(RangeKind::EndDate);
    } else if str_eq_ignore_case(l, "NumberedRecurrence") {
        st.pending.range = Some(RangeKind::Numbered);
    } else {
        st.rec_text = None;
    }
    if empty {
        st.depth = st.depth - 1;
        st.rec_text = None;
    }
    st
}

#[verifier::rlimit(40)]
fn apply_cal_people_tag(st: CalState, l: &str, attrs: &str) -> (r: CalState)
    ensures
        r@ == cal_people_tag(st@, l@, attrs@),
{
    let mut st = st;
    if str_eq_ignore_case(l, "Organizer") {
        st.in_organizer = true;
    } else if str_eq_ignore_case(l, "RequiredAttendees") {
        st.attendee_kind = Some(AttendeeKind::Required);
    } else if str_eq_ignore_case(l, "OptionalAttendees") {
        st.attendee_kind = Some(AttendeeKind::Optional);
    } else if str_eq_ignore_case(l, "Attendee") && st.attendee_kind.is_some() {
        st.attendee = Some(RawAttendee { email: None, name: None, response_type: None });
    } else if str_eq_ignore_case(l, "Mailbox") {
        st.in_mailbox = true;
    } else if str_eq_ignore_case(l, "Name") && st.in_mailbox {
        st.target = Some(if st.in_organizer { CalendarTarget::OrganizerName } else { CalendarTarget::AttendeeName });
    } else if str_eq_ignore_case(l, "EmailAddress") && st.in_mailbox {
        st.target = Some(if st.in_organizer { CalendarTarget::OrganizerEmail } else { CalendarTarget::AttendeeEmail });
    } else if str_eq_ignore_case(l, "ResponseType") && st.attendee.is_some() {
        st.target = Some(CalendarTarget::AttendeeResponse);
    } else if str_eq_ignore_case(l, "Categories") {
        st.categories_open = true;
    } else if st.categories_open && str_eq_ignore_case(l, "String") {
        st.target = Some(CalendarTarget::Category);
    } else if str_eq_ignore_case(l, "DateTimeCreated") {
        st.target = Some(CalendarTarget::Created);
    } else if str_eq_ignore_case(l, "LastModifiedTime") {
        st.target = Some(CalendarTarget::LastModified);
    } else if str_eq_ignore_case(l, "Body") {
        let body_type = match attr_value(attrs, "BodyType") {
            Some(v) => v,
            None => String::new(),
        };
        st.target = Some(if str_eq_ignore_case(body_type.as_str(), "HTML") {
            CalendarTarget::BodyHtml
        } else {
            CalendarTarget::BodyText
        });
    } else if str_eq_ignore_case(l, "FileAttachment") || str_eq_ignore_case(l, "ItemAttachment") {
    } else {
        st.target = None;
    }
    st
}

#[verifier::rlimit(40)]
fn apply_cal_item_tag(st: CalState, l: &str, attrs: &str) -> (r: CalState)
    requires
        st@.depth < usize::MAX,
    ensures
        r@ == cal_item_tag(st@, l@, attrs@),
{
    let mut st = st;
    let occ = st.in_modified || st.in_deleted;
    if str_eq_ignore_case(l, "ItemId") {
        if st.in_modified {
            occurrence_top_id(&mut st.occurrences, attrs);
        } else if st.in_deleted {
            occurrence_top_id(&mut st.deleted, attrs);
        } else {
            let (id, ck) = capture_id_attrs(attrs, st.item.id.id, st.item.id.change_key);
            st.item.id = ItemId { id, change_key: ck };
        }
    } else if str_eq_ignore_case(l, "ParentFolderId") {
        let (pid, _ck) = capture_id_attrs(attrs, String::new(), String::new());
        if !pid.as_str().is_empty() {
            st.item.parent_folder_id = Some(pid);
        }
    } else if str_eq_ignore_case(l, "UID") {
        st.target = Some(CalendarTarget::Uid);
    } else if str_eq_ignore_case(l, "Subject") {
        st.target = Some(CalendarTarget::Subject);
    } else if str_eq_ignore_case(l, "Start") {
        st.target = Some(if occ { CalendarTarget::OccurrenceStart } else { CalendarTarget::Start });
    } else if str_eq_ignore_case(l, "End") {
        st.target = Some(if occ { CalendarTarget::OccurrenceEnd } else { CalendarTarget::End });
    } else if str_eq_ignore_case(l, "OriginalStart") {
        st.target = Some(if occ { CalendarTarget::OccurrenceOriginalStart } else { CalendarTarget::OriginalStart });
    } else if str_eq_ignore_case(l, "IsAllDayEvent") {
        st.target = Some(CalendarTarget::IsAllDay);
    } else if str_eq_ignore_case(l, "LegacyFreeBusyStatus") {
        st.target = Some(CalendarTarget::FreeBusy);
    } else if str_eq_ignore_case(l, "Location") {
        st.target = Some(CalendarTarget::Location);
    } else if str_eq_ignore_case(l, "CalendarItemType") {
        st.target = Some(CalendarTarget::ItemType);
    } else if str_eq_ignore_case(l, "RecurrenceId") {
        st.target = Some(CalendarTarget::RecurrenceId);
    } else if str_eq_ignore_case(l, "StartTimeZone") {
        match attr_value(attrs, "Id") {
            Some(v) => {
                st.item.start_tz = Some(v);
            },
            None => {},
        }
    } else if str_eq_ignore_case(l, "EndTimeZone") {
        match attr_value(attrs, "Id") {
            Some(v) => {
                st.item.end_tz = Some(v);
            },
            None => {},
        }
    } else if str_eq_ignore_case(l, "Recurrence") {
        st.depth = st.depth + 1;
    } else if str_eq_ignore_case(l, "ModifiedOccurrences") {
        st.in_modified = true;
    } else if str_eq_ignore_case(l, "DeletedOccurrences") {
        st.in_deleted = true;
    } else if str_eq_ignore_case(l, "Occurrence") {
        let (id, ck) = capture_id_attrs(attrs, String::new(), String::new());
        push_occurrence(&mut st.occurrences, RawOccurrence {
            item_id: ItemId { id, change_key: ck },
            start: None,
            end: None,
            original_start: None,
        });
    } else if str_eq_ignore_case(l, "DeletedOccurrence") {
        push_occurrence(&mut st.deleted, RawOccurrence {
            item_id: no_id(),
            start: None,
            end: None,
            original_start: None,
        });
    } else {
        return apply_cal_people_tag(st, l, attrs);
    }
    st
}

fn apply_cal_tag(st: CalState, ns: &Option<String>, name: &str, attrs: &str, empty: bool) -> (r: CalState)
    requires
        st@.depth < usize::MAX,
    ensures
        r@ == cal_tag(st@, opt_string_view(*ns), name@, attrs@, empty),
        r@.depth <= st@.depth + 1,
{
    let mut st = st;
    let l = local_name_of(name);
    if st.item.element.as_str().is_empty() && is_item_element(l.as_str()) {
        st.item.element = l;
        st
    } else if classify(ns) != Ns::Types {
        st
    } else if st.depth > 0 {
        apply_cal_rec_tag(st, l.as_str(), empty)
    } else {
        let mut st = apply_cal_item_tag(st, l.as_str(), attrs);
        if empty {
            st.target = None;
        }
        st
    }
}

fn cal_opens_attachment(st: &CalState, ns: &Option<String>, name: &str) -> (r: bool)
    ensures
        r == cal_is_attachment(st@, opt_string_view(*ns), name@),
{
    let l = local_name_of(name);
    !(st.item.element.as_str().is_empty() && is_item_element(l.as_str())) && classify(ns) == Ns::Types
        && st.depth == 0 && (str_eq_ignore_case(l.as_str(), "FileAttachment") || str_eq_ignore_case(
        l.as_str(),
        "ItemAttachment",
    ))
}

#[verifier::rlimit(40)]
fn apply_cal_end(st: CalState, name: &str) -> (r: CalState)
    ensures
        r@ == cal_end(st@, name@),
        r@.depth <= st@.depth,
{
    let mut st = st;
    if st.depth > 0 {
        st.depth = st.depth - 1;
        if st.depth == 0 {
            let mut p = new_pending();
            std::mem::swap(&mut p, &mut st.pending);
            st.item.recurrence = Some(finish_recurrence(p));
        }
        st.rec_text = None;
        return st;
    }
    let l = local_name_of(name);
    let l = l.as_str();
    if str_eq_ignore_case(l, "modifiedoccurrences") {
        st.in_modified = false;
    } else if str_eq_ignore_case(l, "deletedoccurrences") {
        st.in_deleted = false;
    } else if str_eq_ignore_case(l, "occurrence") {
        match pop_occurrence(&mut st.occurrences) {
            Some(o) => {
                push_occurrence(&mut st.item.modified_occurrences, o);
            },
            None => {},
        }
    } else if str_eq_ignore_case(l, "deletedoccurrence") {
        match pop_occurrence(&mut st.deleted) {
            Some(o) => {
                push_occurrence(&mut st.item.deleted_occurrences, o);
            },
            None => {},
        }
    } else if str_eq_ignore_case(l, "attendee") {
        match st.attendee.take() {
            Some(a) => match st.attendee_kind {
                Some(AttendeeKind::Required) => {
                    push_attendee(&mut st.item.required_attendees, a);
                },
                Some(AttendeeKind::Optional) => {
                    push_attendee(&mut st.item.optional_attendees, a);
                },
                None => {},
            },
            None => {},
        }
    } else if str_eq_ignore_case(l, "requiredattendees") || str_eq_ignore_case(l, "optionalattendees") {
        st.attendee_kind = None;
    } else if str_eq_ignore_case(l, "organizer") {
        st.in_organizer = false;
    } else if str_eq_ignore_case(l, "mailbox") {
        st.in_mailbox = false;
    } else if str_eq_ignore_case(l, "categories") {
        st.categories_open = false;
    }
    st.target = None;
    st
}

fn u32_or(t: &str, default: u32) -> (r: u32)
    ensures
        r == (match u32_of(trimmed(t@)) {
            Some(v) => v,
            None => default,
        }),
{
    let w = trim_chars(t);
    match parse_u32(w.as_str()) {
        Some(v) => v,
        None => default,
    }
}

fn apply_cal_rec_text(st: CalState, t: &str) -> (r: CalState)
    ensures
        r@ == cal_rec_text(st@, t@),
{
    let mut st = st;
    match st.rec_text {
        Some(RecurrenceField::Interval) => {
            st.pending.interval = u32_or(t, 1);
        },
        Some(RecurrenceField::DaysOfWeek) => {
            let w = white_words_of(t);
            append_strings(&mut st.pending.days_of_week, w);
        },
        Some(RecurrenceField::DayOfMonth) => {
            st.pending.day_of_month = u32_or(t, 0);
        },
        Some(RecurrenceField::DayOfWeekIndex) => {
            st.pending.day_of_week_index = trim_chars(t);
        },
        Some(RecurrenceField::Month) => {
            st.pending.month = trim_chars(t);
        },
        Some(RecurrenceField::StartDate) => {
            st.pending.start_date = trim_chars(t);
        },
        Some(RecurrenceField::EndDate) => {
            st.pending.end_date = trim_chars(t);
        },
        Some(RecurrenceField::NumberOfOccurrences) => {
            st.pending.number_of_occurrences = u32_or(t, 0);
        },
        None => {},
    }
    st
}

fn apply_cal_part_text(st: CalState, t: &str) -> (r: CalState)
    ensures
        r@ == cal_part_text(st@, t@),
{
    let mut st = st;
    match st.target {
        Some(CalendarTarget::AttendeeName) => match st.attendee.take() {
            Some(a) => {
                let mut a = a;
                a.name = Some(t.to_owned());
                st.attendee = Some(a);
            },
            None => {},
        },
        Some(CalendarTarget::AttendeeEmail) => match st.attendee.take() {
            Some(a) => {
                let mut a = a;
                a.email = Some(t.to_owned());
                st.attendee = Some(a);
            },
            None => {},
        },
        Some(CalendarTarget::AttendeeResponse) => match st.attendee.take() {
            Some(a) => {
                let mut a = a;
                a.response_type = Some(t.to_owned());
                st.attendee = Some(a);
            },
            None => {},
        },
        Some(CalendarTarget::OccurrenceStart) => {
            occurrence_top_set(&mut st.occurrences, OccurrenceField::Start, t.to_owned());
            occurrence_top_set(&mut st.deleted, OccurrenceField::Start, t.to_owned());
        },
        Some(CalendarTarget::OccurrenceEnd) => {
            occurrence_top_set(&mut st.occurrences, OccurrenceField::End, t.to_owned());
        },
        Some(CalendarTarget::OccurrenceOriginalStart) => {
            occurrence_top_set(&mut st.occurrences, OccurrenceField::OriginalStart, t.to_owned());
        },
        _ => {},
    }
    st
}

#[verifier::rlimit(40)]
fn apply_cal_item_text(st: CalState, t: &str) -> (r: CalState)
    ensures
        r@ == cal_item_text(st@, t@),
{
    let mut st = st;
    match st.target {
        Some(CalendarTarget::Uid) => {
            st.item.uid = Some(t.to_owned());
        },
        Some(CalendarTarget::Subject) => {
            st.item.subject = Some(t.to_owned());
        },
        Some(CalendarTarget::Start) => {
            st.item.start = Some(t.to_owned());
        },
        Some(CalendarTarget::End) => {
            st.item.end = Some(t.to_owned());
        },
        Some(CalendarTarget::OriginalStart) => {
            st.item.original_start = Some(t.to_owned());
        },
        Some(CalendarTarget::IsAllDay) => {
            st.item.is_all_day_event = Some(is_truthy(t));
        },
        Some(CalendarTarget::FreeBusy) => {
            st.item.legacy_free_busy_status = Some(t.to_owned());
        },
        Some(CalendarTarget::Location) => {
            st.item.location = Some(t.to_owned());
        },
        Some(CalendarTarget::ItemType) => {
            let w = trim_chars(t);
            st.item.calendar_item_type = CalendarItemType::parse(w.as_str());
        },
        Some(CalendarTarget::RecurrenceId) => {
            st.item.recurrence_id = Some(t.to_owned());
        },
        Some(CalendarTarget::OrganizerName) => {
            st.item.organizer_name = Some(t.to_owned());
        },
        Some(CalendarTarget::OrganizerEmail) => {
            st.item.organizer_smtp = Some(t.to_owned());
        },
        Some(CalendarTarget::Category) => {
            push_string(&mut st.item.categories, t.to_owned());
        },
        Some(CalendarTarget::Created) => {
            st.item.created = Some(t.to_owned());
        },
        Some(CalendarTarget::LastModified) => {
            st.item.last_modified = Some(t.to_owned());
        },
        Some(CalendarTarget::BodyText) => {
            let b = st.item.body_text.take();
            st.item.body_text = append_opt(b, t);
        },
        Some(CalendarTarget::BodyHtml) => {
            let b = st.item.body_html.take();
            st.item.body_html = append_opt(b, t);
        },
        _ => {
            return apply_cal_part_text(st, t);
        },
    }
    st
}

fn apply_cal_text(st: CalState, t: &str) -> (r: CalState)
    ensures
        r@ == cal_text(st@, t@),
        r@.depth == st@.depth,
{
    if st.depth > 0 {
        apply_cal_rec_text(st, t)
    } else {
        apply_cal_item_text(st, t)
    }
}

fn apply_cal_step(st: CalState, e: &XmlStep) -> (r: CalState)
    requires
        st@.depth < usize::MAX,
        match e@ {
            XmlStepV::Start(ns, name, _) => !cal_is_attachment(st@, ns, name),
            XmlStepV::Empty(ns, name, _) => !cal_is_attachment(st@, ns, name),
            _ => true,
        },
    ensures
        match e@ {
            XmlStepV::Start(ns, name, attrs) => r@ == cal_tag(st@, ns, name, attrs, false),
            XmlStepV::Empty(ns, name, attrs) => r@ == cal_tag(st@, ns, name, attrs, true),
            XmlStepV::End(_, name) => r@ == cal_end(st@, name),
            XmlStepV::Text(t) => r@ == cal_text(st@, t),
            XmlStepV::CData(t) => r@ == cal_text(st@, t),
            _ => r@ == st@,
        },
        r@.depth <= st@.depth + 1,
{
    match e {
        XmlStep::Start(ns, name, attrs) => apply_cal_tag(st, ns, name.as_str(), attrs.as_str(), false),
        XmlStep::Empty(ns, name, attrs) => apply_cal_tag(st, ns, name.as_str(), attrs.as_str(), true),
        XmlStep::End(_, name) => apply_cal_end(st, name.as_str()),
        XmlStep::Text(t) => apply_cal_text(st, t.as_str()),
        XmlStep::CData(t) => apply_cal_text(st, t.as_str()),
        _ => st,
    }
}

pub open spec fn no_calendar_item() -> CalendarV {
    CalendarV {
        element: Seq::empty(),
        id: Seq::empty(),
        change_key: Seq::empty(),
        parent_folder_id: None,
        uid: None,
        subject: None,
        start: None,
        end: None,
        original_start: None,
        is_all_day_event: None,
        legacy_free_busy_status: None,
        location: None,
        calendar_item_type: None,
        recurrence_id: None,
        start_tz: None,
        end_tz: None,
        recurrence: None,
        modified_occurrences: Seq::empty(),
        deleted_occurrences: Seq::empty(),
        organizer_smtp: None,
        organizer_name: None,
        required_attendees: Seq::empty(),
        optional_attendees: Seq::empty(),
        categories: Seq::empty(),
        created: None,
        last_modified: None,
        body_text: None,
        body_html: None,
        attachments: Seq::empty(),
    }
}

pub open spec fn cal_start() -> CalSt {
    CalSt {
        item: no_calendar_item(),
        target: None,
        categories_open: false,
        attendee_kind: None,
        attendee: None,
        in_mailbox: false,
        in_organizer: false,
        occurrences: Seq::empty(),
        deleted: Seq::empty(),
        in_modified: false,
        in_deleted: false,
        depth: 0,
        rec_text: None,
        pending: no_pending(),
    }
}

/// A calendar item read from the inner markup of a response message: its
/// fields, its recurrence, its moved and deleted occurrences, its organizer
/// and attendees, its body and its attachments.
pub fn parse_calendar_item(inner_xml: &str) -> (r: Result<CalendarItemRaw, EwsError>)
    ensures
        match cal_spec(text_steps(inner_xml@, false), 0, cal_start()) {
            Ok(v) => r matches Ok(x) && x@ == v,
            Err(e) => r matches Err(EwsError::Xml(m)) && m@ == e,
        },
{
    let steps = xml_steps(inner_xml.as_bytes(), false);
    let ghost s = steps_view(steps@);
    let n = steps.len();
    let mut st = CalState {
        item: CalendarItemRaw {
            element: String::new(),
            id: no_id(),
            parent_folder_id: None,
            uid: None,
            subject: None,
            start: None,
            end: None,
            original_start: None,
            is_all_day_event: None,
            legacy_free_busy_status: None,
            location: None,
            calendar_item_type: None,
            recurrence_id: None,
            start_tz: None,
            end_tz: None,
            recurrence: None,
            modified_occurrences: Vec::new(),
            deleted_occurrences: Vec::new(),
            organizer_smtp: None,
            organizer_name: None,
            required_attendees: Vec::new(),
            optional_attendees: Vec::new(),
            categories: Vec::new(),
            created: None,
            last_modified: None,
            body_text: None,
            body_html: None,
            attachments: Vec::new(),
        },
        target: None,
        categories_open: false,
        attendee_kind: None,
        attendee: None,
        in_mailbox: false,
        in_organizer: false,
        occurrences: Vec::new(),
        deleted: Vec::new(),
        in_modified: false,
        in_deleted: false,
        depth: 0,
        rec_text: None,
        pending: new_pending(),
    };
    assert(st@ =~= cal_start()) by {
        assert(occurrences_view(st.item.modified_occurrences@) =~= Seq::<OccurrenceV>::empty());
        assert(occurrences_view(st.item.deleted_occurrences@) =~= Seq::<OccurrenceV>::empty());
        assert(occurrences_view(st.occurrences@) =~= Seq::<OccurrenceV>::empty());
        assert(occurrences_view(st.deleted@) =~= Seq::<OccurrenceV>::empty());
        assert(attendees_view(st.item.required_attendees@) =~= Seq::<AttendeeV>::empty());
        assert(attendees_view(st.item.optional_attendees@) =~= Seq::<AttendeeV>::empty());
        assert(strings_view(st.item.categories@) =~= Seq::<Seq<char>>::empty());
        assert(attachments_view(st.item.attachments@) =~= Seq::<AttachmentV>::empty());
        assert(st@.item =~= no_calendar_item());
    }
    let mut k: usize = 0;
    loop
        invariant
            s == steps_view(steps@),
            s == text_steps(inner_xml@, false),
            s.len() == steps@.len(),
            n == s.len(),
            well_ended(s),
            k < s.len(),
            st@.depth <= k,
            cal_spec(s, 0, cal_start()) == cal_spec(s, k as int, st@),
        decreases s.len() - k,
    {
        assert(s[k as int] == steps@[k as int]@);
        let opener: Option<(&String, bool)> = match &steps[k] {
            XmlStep::Start(ns, name, _) => if cal_opens_attachment(&st, ns, name.as_str()) {
                Some((name, false))
            } else {
                None
            },
            XmlStep::Empty(ns, name, _) => if cal_opens_attachment(&st, ns, name.as_str()) {
                Some((name, true))
            } else {
                None
            },
            _ => None,
        };
        if let Some((name, empty)) = opener {
            proof { lemma_next(s, k as int); }
            let l = local_name_of(name.as_str());
            match parse_attachment_ref(&steps, k + 1, l.as_str()) {
                Err(m) => {
                    return Err(EwsError::Xml(m));
                },
                Ok((a, j)) => {
                    push_attachment(&mut st.item.attachments, a);
                    if empty {
                        st.target = None;
                    }
                    k = j;
                },
            }
        } else {
            match &steps[k] {
                XmlStep::Eof => {
                    return Ok(st.item);
                },
                XmlStep::Failed(m) => {
                    return Err(EwsError::Xml(m.clone()));
                },
                _ => {
                    proof { lemma_next(s, k as int); }
                    st = apply_cal_step(st, &steps[k]);
                    k = k + 1;
                },
            }
        }
    }
}


/// Inside a message, each element of the types namespace that carries a
/// single value puts the text that follows it into its own field and leaves
/// the rest of the item as it was: `Subject`, `DateTimeReceived` and (within a
/// `Flag`) `FlagStatus` as written; `IsRead`, `IsDraft` and
/// `IsReadReceiptRequested` as true exactly when the text, trimmed, is `true`
/// or `1`.
pub proof fn law_message_elements_fill_their_fields(
    st: MsgSt,
    ns: Option<Seq<char>>,
    name: Seq<char>,
    attrs: Seq<char>,
    t: Seq<char>,
)
    requires
        st.item.element.len() > 0,
        ews_ns(ns) == Ns::Types,
    ensures
        ({
            let l = local_name(name);
            let it = st.item;
            let after = msg_step(msg_step(st, XmlStepV::Start(ns, name, attrs)), XmlStepV::Text(t)).item;
            let flag = trimmed(t) == "true"@ || trimmed(t) == "1"@;
            &&& eq_ignore_case(l, "Subject"@) ==> after == MessageItemV { subject: Some(t), ..it }
            &&& eq_ignore_case(l, "DateTimeReceived"@) ==> after == MessageItemV { date_time_received: Some(t), ..it }
            &&& eq_ignore_case(l, "IsRead"@) ==> after == MessageItemV { is_read: Some(flag), ..it }
            &&& eq_ignore_case(l, "IsDraft"@) ==> after == MessageItemV { is_draft: Some(flag), ..it }
            &&& eq_ignore_case(l, "IsReadReceiptRequested"@) ==> after == MessageItemV {
                is_read_receipt_requested: Some(flag),
                ..it
            }
            &&& (st.in_flag && eq_ignore_case(l, "FlagStatus"@)) ==> after == MessageItemV { flag_status: Some(t), ..it }
        }),
{
    reveal_strlit("ItemId");
    reveal_strlit("ParentFolderId");
    reveal_strlit("MimeContent");
    reveal_strlit("Subject");
    reveal_strlit("DateTimeReceived");
    reveal_strlit("IsRead");
    reveal_strlit("IsDraft");
    reveal_strlit("IsReadReceiptRequested");
    reveal_strlit("Categories");
    reveal_strlit("String");
    reveal_strlit("Flag");
    reveal_strlit("FlagStatus");
    let l = local_name(name);
    assert(lower_seq(l).len() == l.len());
    assert(lower_seq("ItemId"@).len() == 6);
    assert(lower_seq("ParentFolderId"@).len() == 14);
    assert(lower_seq("MimeContent"@).len() == 11);
    assert(lower_seq("Subject"@).len() == 7);
    assert(lower_seq("DateTimeReceived"@).len() == 16);
    assert(lower_seq("IsRead"@).len() == 6);
    assert(lower_seq("IsDraft"@).len() == 7);
    assert(lower_seq("IsReadReceiptRequested"@).len() == 22);
    assert(lower_seq("Categories"@).len() == 10);
    assert(lower_seq("String"@).len() == 6);
    assert(lower_seq("Flag"@).len() == 4);
    assert(lower_seq("FlagStatus"@).len() == 10);
    assert(lower_seq("IsDraft"@)[1] != lower_seq("Subject"@)[1]);
    assert(lower_seq("ItemId"@)[3] != lower_seq("IsRead"@)[3]);
    assert(lower_seq("ItemId"@)[3] != lower_seq("String"@)[3]);
    assert(lower_seq("IsRead"@)[3] != lower_seq("String"@)[3]);
    assert(lower_seq("Categories"@)[1] != lower_seq("FlagStatus"@)[1]);
}

/// Inside a contact, each text element of the types namespace puts the text
/// that follows it into its own field of the contact and leaves the rest as it
/// was (outside a physical address, whose parts are read apart).
pub proof fn law_contact_elements_fill_their_fields(
    st: ContactSt,
    ns: Option<Seq<char>>,
    name: Seq<char>,
    attrs: Seq<char>,
    t: Seq<char>,
)
    requires
        st.seen_root,
        st.address is None,
        ews_ns(ns) == Ns::Types,
    ensures
        ({
            let l = local_name(name);
            let after = contact_text(contact_tag(st, ns, name, attrs, false), t).item;
            &&& eq_ignore_case(l, "DisplayName"@) ==> after == ContactV { display_name: Some(t), ..st.item }
            &&& eq_ignore_case(l, "GivenName"@) ==> after == ContactV { given_name: Some(t), ..st.item }
            &&& eq_ignore_case(l, "MiddleName"@) ==> after == ContactV { middle_name: Some(t), ..st.item }
            &&& eq_ignore_case(l, "Surname"@) ==> after == ContactV { surname: Some(t), ..st.item }
            &&& eq_ignore_case(l, "Initials"@) ==> after == ContactV { initials: Some(t), ..st.item }
            &&& eq_ignore_case(l, "Nickname"@) ==> after == ContactV { nickname: Some(t), ..st.item }
            &&& eq_ignore_case(l, "CompanyName"@) ==> after == ContactV { company_name: Some(t), ..st.item }
            &&& eq_ignore_case(l, "Department"@) ==> after == ContactV { department: Some(t), ..st.item }
            &&& eq_ignore_case(l, "JobTitle"@) ==> after == ContactV { job_title: Some(t), ..st.item }
            &&& eq_ignore_case(l, "Generation"@) ==> after == ContactV { generation: Some(t), ..st.item }
            &&& eq_ignore_case(l, "OfficeLocation"@) ==> after == ContactV { office_location: Some(t), ..st.item }
            &&& eq_ignore_case(l, "BusinessHomePage"@) ==> after == ContactV { url: Some(t), ..st.item }
            &&& eq_ignore_case(l, "Birthday"@) ==> after == ContactV { birthday: Some(t), ..st.item }
            &&& eq_ignore_case(l, "WeddingAnniversary"@) ==> after == ContactV { wedding_anniversary: Some(t), ..st.item }
            &&& eq_ignore_case(l, "Manager"@) ==> after == ContactV { manager: Some(t), ..st.item }
            &&& eq_ignore_case(l, "SpouseName"@) ==> after == ContactV { spouse: Some(t), ..st.item }
            &&& eq_ignore_case(l, "AssistantName"@) ==> after == ContactV { assistant: Some(t), ..st.item }
            &&& eq_ignore_case(l, "Profession"@) ==> after == ContactV { profession: Some(t), ..st.item }
            &&& eq_ignore_case(l, "PostalAddressIndex"@) ==> after == ContactV { postal_address_index: Some(t), ..st.item }
            &&& eq_ignore_case(l, "Body"@) ==> after == ContactV { notes: Some(t), ..st.item }
            &&& eq_ignore_case(l, "DateTimeCreated"@) ==> after == ContactV { created: Some(t), ..st.item }
            &&& eq_ignore_case(l, "LastModifiedTime"@) ==> after == ContactV { last_modified: Some(t), ..st.item }
        }),
{
    reveal_strlit("DisplayName");
    reveal_strlit("GivenName");
    reveal_strlit("MiddleName");
    reveal_strlit("Surname");
    reveal_strlit("Initials");
    reveal_strlit("Nickname");
    reveal_strlit("CompanyName");
    reveal_strlit("Department");
    reveal_strlit("JobTitle");
    reveal_strlit("Generation");
    reveal_strlit("OfficeLocation");
    reveal_strlit("BusinessHomePage");
    reveal_strlit("Birthday");
    reveal_strlit("WeddingAnniversary");
    reveal_strlit("Manager");
    reveal_strlit("SpouseName");
    reveal_strlit("AssistantName");
    reveal_strlit("Profession");
    reveal_strlit("PostalAddressIndex");
    reveal_strlit("Body");
    reveal_strlit("DateTimeCreated");
    reveal_strlit("LastModifiedTime");
    reveal_strlit("ItemId");
    reveal_strlit("ParentFolderId");
    assert(lower_seq("DisplayName"@).len() == 11 && lower_seq("DisplayName"@)[1] == 'i' && lower_seq("DisplayName"@)[2] == 's');
    assert(lower_seq("GivenName"@).len() == 9 && lower_seq("GivenName"@)[1] == 'i' && lower_seq("GivenName"@)[2] == 'v');
    assert(lower_seq("MiddleName"@).len() == 10 && lower_seq("MiddleName"@)[1] == 'i' && lower_seq("MiddleName"@)[2] == 'd');
    assert(lower_seq("Surname"@).len() == 7 && lower_seq("Surname"@)[1] == 'u' && lower_seq("Surname"@)[2] == 'r');
    assert(lower_seq("Initials"@).len() == 8 && lower_seq("Initials"@)[1] == 'n' && lower_seq("Initials"@)[2] == 'i');
    assert(lower_seq("Nickname"@).len() == 8 && lower_seq("Nickname"@)[1] == 'i' && lower_seq("Nickname"@)[2] == 'c');
    assert(lower_seq("CompanyName"@).len() == 11 && lower_seq("CompanyName"@)[1] == 'o' && lower_seq("CompanyName"@)[2] == 'm');
    assert(lower_seq("Department"@).len() == 10 && lower_seq("Department"@)[1] == 'e' && lower_seq("Department"@)[2] == 'p');
    assert(lower_seq("JobTitle"@).len() == 8 && lower_seq("JobTitle"@)[1] == 'o' && lower_seq("JobTitle"@)[2] == 'b');
    assert(lower_seq("Generation"@).len() == 10 && lower_seq("Generation"@)[1] == 'e' && lower_seq("Generation"@)[2] == 'n');
    assert(lower_seq("OfficeLocation"@).len() == 14 && lower_seq("OfficeLocation"@)[1] == 'f' && lower_seq("OfficeLocation"@)[2] == 'f');
    assert(lower_seq("BusinessHomePage"@).len() == 16 && lower_seq("BusinessHomePage"@)[1] == 'u' && lower_seq("BusinessHomePage"@)[2] == 's');
    assert(lower_seq("Birthday"@).len() == 8 && lower_seq("Birthday"@)[1] == 'i' && lower_seq("Birthday"@)[2] == 'r');
    assert(lower_seq("WeddingAnniversary"@).len() == 18 && lower_seq("WeddingAnniversary"@)[1] == 'e' && lower_seq("WeddingAnniversary"@)[2] == 'd');
    assert(lower_seq("Manager"@).len() == 7 && lower_seq("Manager"@)[1] == 'a' && lower_seq("Manager"@)[2] == 'n');
    assert(lower_seq("SpouseName"@).len() == 10 && lower_seq("SpouseName"@)[1] == 'p' && lower_seq("SpouseName"@)[2] == 'o');
    assert(lower_seq("AssistantName"@).len() == 13 && lower_seq("AssistantName"@)[1] == 's' && lower_seq("AssistantName"@)[2] == 's');
    assert(lower_seq("Profession"@).len() == 10 && lower_seq("Profession"@)[1] == 'r' && lower_seq("Profession"@)[2] == 'o');
    assert(lower_seq("PostalAddressIndex"@).len() == 18 && lower_seq("PostalAddressIndex"@)[1] == 'o' && lower_seq("PostalAddressIndex"@)[2] == 's');
    assert(lower_seq("Body"@).len() == 4 && lower_seq("Body"@)[1] == 'o' && lower_seq("Body"@)[2] == 'd');
    assert(lower_seq("DateTimeCreated"@).len() == 15 && lower_seq("DateTimeCreated"@)[1] == 'a' && lower_seq("DateTimeCreated"@)[2] == 't');
    assert(lower_seq("LastModifiedTime"@).len() == 16 && lower_seq("LastModifiedTime"@)[1] == 'a' && lower_seq("LastModifiedTime"@)[2] == 's');
    assert(lower_seq("ItemId"@).len() == 6 && lower_seq("ItemId"@)[1] == 't' && lower_seq("ItemId"@)[2] == 'e');
    assert(lower_seq("ParentFolderId"@).len() == 14 && lower_seq("ParentFolderId"@)[1] == 'a' && lower_seq("ParentFolderId"@)[2] == 'r');
    let l = local_name(name);
    assert(lower_seq(l).len() == l.len());
}

/// Inside a calendar item (outside its recurrence and its occurrence lists),
/// each single-valued element of the types namespace puts the text that
/// follows it into its own field and leaves the rest of the item as it was:
/// as written, except `IsAllDayEvent`, true exactly when the text, trimmed, is
/// `true` or `1`, and `CalendarItemType`, read as an item type.
pub proof fn law_calendar_elements_fill_their_fields(
    st: CalSt,
    ns: Option<Seq<char>>,
    name: Seq<char>,
    attrs: Seq<char>,
    t: Seq<char>,
)
    requires
        st.item.element.len() > 0,
        ews_ns(ns) == Ns::Types,
        st.depth == 0,
        !st.in_modified,
        !st.in_deleted,
    ensures
        ({
            let l = local_name(name);
            let after = cal_text(cal_tag(st, ns, name, attrs, false), t).item;
            let flag = trimmed(t) == "true"@ || trimmed(t) == "1"@;
            &&& eq_ignore_case(l, "UID"@) ==> after == CalendarV { uid: Some(t), ..st.item }
            &&& eq_ignore_case(l, "Subject"@) ==> after == CalendarV { subject: Some(t), ..st.item }
            &&& eq_ignore_case(l, "Start"@) ==> after == CalendarV { start: Some(t), ..st.item }
            &&& eq_ignore_case(l, "End"@) ==> after == CalendarV { end: Some(t), ..st.item }
            &&& eq_ignore_case(l, "OriginalStart"@) ==> after == CalendarV { original_start: Some(t), ..st.item }
            &&& eq_ignore_case(l, "IsAllDayEvent"@) ==> after == CalendarV { is_all_day_event: Some(flag), ..st.item }
            &&& eq_ignore_case(l, "LegacyFreeBusyStatus"@) ==> after == CalendarV { legacy_free_busy_status: Some(t), ..st.item }
            &&& eq_ignore_case(l, "Location"@) ==> after == CalendarV { location: Some(t), ..st.item }
            &&& eq_ignore_case(l, "CalendarItemType"@) ==> after == CalendarV { calendar_item_type: item_type_of(trimmed(t)), ..st.item }
            &&& eq_ignore_case(l, "RecurrenceId"@) ==> after == CalendarV { recurrence_id: Some(t), ..st.item }
            &&& eq_ignore_case(l, "DateTimeCreated"@) ==> after == CalendarV { created: Some(t), ..st.item }
            &&& eq_ignore_case(l, "LastModifiedTime"@) ==> after == CalendarV { last_modified: Some(t), ..st.item }
        }),
{
    reveal_strlit("ItemId");
    reveal_strlit("ParentFolderId");
    reveal_strlit("UID");
    reveal_strlit("Subject");
    reveal_strlit("Start");
    reveal_strlit("End");
    reveal_strlit("OriginalStart");
    reveal_strlit("IsAllDayEvent");
    reveal_strlit("LegacyFreeBusyStatus");
    reveal_strlit("Location");
    reveal_strlit("CalendarItemType");
    reveal_strlit("RecurrenceId");
    reveal_strlit("StartTimeZone");
    reveal_strlit("EndTimeZone");
    reveal_strlit("Recurrence");
    reveal_strlit("ModifiedOccurrences");
    reveal_strlit("DeletedOccurrences");
    reveal_strlit("Occurrence");
    reveal_strlit("DeletedOccurrence");
    reveal_strlit("Organizer");
    reveal_strlit("RequiredAttendees");
    reveal_strlit("OptionalAttendees");
    reveal_strlit("Attendee");
    reveal_strlit("Mailbox");
    reveal_strlit("Name");
    reveal_strlit("EmailAddress");
    reveal_strlit("ResponseType");
    reveal_strlit("Categories");
    reveal_strlit("String");
    reveal_strlit("DateTimeCreated");
    reveal_strlit("LastModifiedTime");
    assert(lower_seq("ItemId"@).len() == 6 && lower_seq("ItemId"@)[0] == 'i' && lower_seq("ItemId"@)[1] == 't' && lower_seq("ItemId"@)[2] == 'e' && lower_seq("ItemId"@)[3] == 'm' && lower_seq("ItemId"@)[5] == 'd');
    assert(lower_seq("ParentFolderId"@).len() == 14 && lower_seq("ParentFolderId"@)[0] == 'p' && lower_seq("ParentFolderId"@)[1] == 'a' && lower_seq("ParentFolderId"@)[2] == 'r' && lower_seq("ParentFolderId"@)[3] == 'e' && lower_seq("ParentFolderId"@)[13] == 'd');
    assert(lower_seq("UID"@).len() == 3 && lower_seq("UID"@)[0] == 'u' && lower_seq("UID"@)[1] == 'i' && lower_seq("UID"@)[2] == 'd');
    assert(lower_seq("Subject"@).len() == 7 && lower_seq("Subject"@)[0] == 's' && lower_seq("Subject"@)[1] == 'u' && lower_seq("Subject"@)[2] == 'b' && lower_seq("Subject"@)[3] == 'j' && lower_seq("Subject"@)[6] == 't');
    assert(lower_seq("Start"@).len() == 5 && lower_seq("Start"@)[0] == 's' && lower_seq("Start"@)[1] == 't' && lower_seq("Start"@)[2] == 'a' && lower_seq("Start"@)[3] == 'r' && lower_seq("Start"@)[4] == 't');
    assert(lower_seq("End"@).len() == 3 && lower_seq("End"@)[0] == 'e' && lower_seq("End"@)[1] == 'n' && lower_seq("End"@)[2] == 'd');
    assert(lower_seq("OriginalStart"@).len() == 13 && lower_seq("OriginalStart"@)[0] == 'o' && lower_seq("OriginalStart"@)[1] == 'r' && lower_seq("OriginalStart"@)[2] == 'i' && lower_seq("OriginalStart"@)[3] == 'g' && lower_seq("OriginalStart"@)[12] == 't');
    assert(lower_seq("IsAllDayEvent"@).len() == 13 && lower_seq("IsAllDayEvent"@)[0] == 'i' && lower_seq("IsAllDayEvent"@)[1] == 's' && lower_seq("IsAllDayEvent"@)[2] == 'a' && lower_seq("IsAllDayEvent"@)[3] == 'l' && lower_seq("IsAllDayEvent"@)[12] == 't');
    assert(lower_seq("LegacyFreeBusyStatus"@).len() == 20 && lower_seq("LegacyFreeBusyStatus"@)[0] == 'l' && lower_seq("LegacyFreeBusyStatus"@)[1] == 'e' && lower_seq("LegacyFreeBusyStatus"@)[2] == 'g' && lower_seq("LegacyFreeBusyStatus"@)[3] == 'a' && lower_seq("LegacyFreeBusyStatus"@)[19] == 's');
    assert(lower_seq("Location"@).len() == 8 && lower_seq("Location"@)[0] == 'l' && lower_seq("Location"@)[1] == 'o' && lower_seq("Location"@)[2] == 'c' && lower_seq("Location"@)[3] == 'a' && lower_seq("Location"@)[7] == 'n');
    assert(lower_seq("CalendarItemType"@).len() == 16 && lower_seq("CalendarItemType"@)[0] == 'c' && lower_seq("CalendarItemType"@)[1] == 'a' && lower_seq("CalendarItemType"@)[2] == 'l' && lower_seq("CalendarItemType"@)[3] == 'e' && lower_seq("CalendarItemType"@)[15] == 'e');
    assert(lower_seq("RecurrenceId"@).len() == 12 && lower_seq("RecurrenceId"@)[0] == 'r' && lower_seq("RecurrenceId"@)[1] == 'e' && lower_seq("RecurrenceId"@)[2] == 'c' && lower_seq("RecurrenceId"@)[3] == 'u' && lower_seq("RecurrenceId"@)[11] == 'd');
    assert(lower_seq("StartTimeZone"@).len() == 13 && lower_seq("StartTimeZone"@)[0] == 's' && lower_seq("StartTimeZone"@)[1] == 't' && lower_seq("StartTimeZone"@)[2] == 'a' && lower_seq("StartTimeZone"@)[3] == 'r' && lower_seq("StartTimeZone"@)[12] == 'e');
    assert(lower_seq("EndTimeZone"@).len() == 11 && lower_seq("EndTimeZone"@)[0] == 'e' && lower_seq("EndTimeZone"@)[1] == 'n' && lower_seq("EndTimeZone"@)[2] == 'd' && lower_seq("EndTimeZone"@)[3] == 't' && lower_seq("EndTimeZone"@)[10] == 'e');
    assert(lower_seq("Recurrence"@).len() == 10 && lower_seq("Recurrence"@)[0] == 'r' && lower_seq("Recurrence"@)[1] == 'e' && lower_seq("Recurrence"@)[2] == 'c' && lower_seq("Recurrence"@)[3] == 'u' && lower_seq("Recurrence"@)[9] == 'e');
    assert(lower_seq("ModifiedOccurrences"@).len() == 19 && lower_seq("ModifiedOccurrences"@)[0] == 'm' && lower_seq("ModifiedOccurrences"@)[1] == 'o' && lower_seq("ModifiedOccurrences"@)[2] == 'd' && lower_seq("ModifiedOccurrences"@)[3] == 'i' && lower_seq("ModifiedOccurrences"@)[18] == 's');
    assert(lower_seq("DeletedOccurrences"@).len() == 18 && lower_seq("DeletedOccurrences"@)[0] == 'd' && lower_seq("DeletedOccurrences"@)[1] == 'e' && lower_seq("DeletedOccurrences"@)[2] == 'l' && lower_seq("DeletedOccurrences"@)[3] == 'e' && lower_seq("DeletedOccurrences"@)[17] == 's');
    assert(lower_seq("Occurrence"@).len() == 10 && lower_seq("Occurrence"@)[0] == 'o' && lower_seq("Occurrence"@)[1] == 'c' && lower_seq("Occurrence"@)[2] == 'c' && lower_seq("Occurrence"@)[3] == 'u' && lower_seq("Occurrence"@)[9] == 'e');
    assert(lower_seq("DeletedOccurrence"@).len() == 17 && lower_seq("DeletedOccurrence"@)[0] == 'd' && lower_seq("DeletedOccurrence"@)[1] == 'e' && lower_seq("DeletedOccurrence"@)[2] == 'l' && lower_seq("DeletedOccurrence"@)[3] == 'e' && lower_seq("DeletedOccurrence"@)[16] == 'e');
    assert(lower_seq("Organizer"@).len() == 9 && lower_seq("Organizer"@)[0] == 'o' && lower_seq("Organizer"@)[1] == 'r' && lower_seq("Organizer"@)[2] == 'g' && lower_seq("Organizer"@)[3] == 'a' && lower_seq("Organizer"@)[8] == 'r');
    assert(lower_seq("RequiredAttendees"@).len() == 17 && lower_seq("RequiredAttendees"@)[0] == 'r' && lower_seq("RequiredAttendees"@)[1] == 'e' && lower_seq("RequiredAttendees"@)[2] == 'q' && lower_seq("RequiredAttendees"@)[3] == 'u' && lower_seq("RequiredAttendees"@)[16] == 's');
    assert(lower_seq("OptionalAttendees"@).len() == 17 && lower_seq("OptionalAttendees"@)[0] == 'o' && lower_seq("OptionalAttendees"@)[1] == 'p' && lower_seq("OptionalAttendees"@)[2] == 't' && lower_seq("OptionalAttendees"@)[3] == 'i' && lower_seq("OptionalAttendees"@)[16] == 's');
    assert(lower_seq("Attendee"@).len() == 8 && lower_seq("Attendee"@)[0] == 'a' && lower_seq("Attendee"@)[1] == 't' && lower_seq("Attendee"@)[2] == 't' && lower_seq("Attendee"@)[3] == 'e' && lower_seq("Attendee"@)[7] == 'e');
    assert(lower_seq("Mailbox"@).len() == 7 && lower_seq("Mailbox"@)[0] == 'm' && lower_seq("Mailbox"@)[1] == 'a' && lower_seq("Mailbox"@)[2] == 'i' && lower_seq("Mailbox"@)[3] == 'l' && lower_seq("Mailbox"@)[6] == 'x');
    assert(lower_seq("Name"@).len() == 4 && lower_seq("Name"@)[0] == 'n' && lower_seq("Name"@)[1] == 'a' && lower_seq("Name"@)[2] == 'm' && lower_seq("Name"@)[3] == 'e');
    assert(lower_seq("EmailAddress"@).len() == 12 && lower_seq("EmailAddress"@)[0] == 'e' && lower_seq("EmailAddress"@)[1] == 'm' && lower_seq("EmailAddress"@)[2] == 'a' && lower_seq("EmailAddress"@)[3] == 'i' && lower_seq("EmailAddress"@)[11] == 's');
    assert(lower_seq("ResponseType"@).len() == 12 && lower_seq("ResponseType"@)[0] == 'r' && lower_seq("ResponseType"@)[1] == 'e' && lower_seq("ResponseType"@)[2] == 's' && lower_seq("ResponseType"@)[3] == 'p' && lower_seq("ResponseType"@)[11] == 'e');
    assert(lower_seq("Categories"@).len() == 10 && lower_seq("Categories"@)[0] == 'c' && lower_seq("Categories"@)[1] == 'a' && lower_seq("Categories"@)[2] == 't' && lower_seq("Categories"@)[3] == 'e' && lower_seq("Categories"@)[9] == 's');
    assert(lower_seq("String"@).len() == 6 && lower_seq("String"@)[0] == 's' && lower_seq("String"@)[1] == 't' && lower_seq("String"@)[2] == 'r' && lower_seq("String"@)[3] == 'i' && lower_seq("String"@)[5] == 'g');
    assert(lower_seq("DateTimeCreated"@).len() == 15 && lower_seq("DateTimeCreated"@)[0] == 'd' && lower_seq("DateTimeCreated"@)[1] == 'a' && lower_seq("DateTimeCreated"@)[2] == 't' && lower_seq("DateTimeCreated"@)[3] == 'e' && lower_seq("DateTimeCreated"@)[14] == 'd');
    assert(lower_seq("LastModifiedTime"@).len() == 16 && lower_seq("LastModifiedTime"@)[0] == 'l' && lower_seq("LastModifiedTime"@)[1] == 'a' && lower_seq("LastModifiedTime"@)[2] == 's' && lower_seq("LastModifiedTime"@)[3] == 't' && lower_seq("LastModifiedTime"@)[15] == 'e');
    let l = local_name(name);
    assert(lower_seq(l).len() == l.len());
}

/// In a `SyncFolderItems` reply, the text after a `SyncState` element is the
/// new sync state, and the text after `IncludesLastItemInRange` says whether
/// more changes wait: more exactly when that text, trimmed, is neither `true`
/// nor `1`. Nothing else of the reply changes.
pub proof fn law_sync_state_and_more(st: SyncSt, ns: Option<Seq<char>>, name: Seq<char>, attrs: Seq<char>, t: Seq<char>)
    requires
        ews_ns(ns) == Ns::Messages,
        !st.reading_is_read,
    ensures
        ({
            let l = local_name(name);
            let after = sync_step(sync_step(st, XmlStepV::Start(ns, name, attrs)), XmlStepV::Text(t)).out;
            &&& eq_ignore_case(l, "SyncState"@) ==> after == SyncV { sync_state: t, ..st.out }
            &&& eq_ignore_case(l, "IncludesLastItemInRange"@) ==> after == SyncV {
                more: !(trimmed(t) == "true"@ || trimmed(t) == "1"@),
                ..st.out
            }
        }),
{
    reveal_strlit("SyncState");
    reveal_strlit("IncludesLastItemInRange");
    let l = local_name(name);
    assert(lower_seq(l).len() == l.len());
    assert(lower_seq("SyncState"@).len() == 9);
    assert(lower_seq("IncludesLastItemInRange"@).len() == 23);
}

/// Inside the changes of a reply, a `Create`, `Update`, `Delete` or
/// `ReadFlagChange` element of the types namespace opens a change of that
/// kind, with no id yet.
pub proof fn law_sync_change_kinds(st: SyncSt, ns: Option<Seq<char>>, name: Seq<char>, attrs: Seq<char>)
    requires
        st.in_changes,
        ews_ns(ns) == Ns::Types,
    ensures
        ({
            let l = local_name(name);
            let c = sync_step(st, XmlStepV::Start(ns, name, attrs)).current;
            let e = Seq::<char>::empty();
            &&& eq_ignore_case(l, "Create"@) ==> c == Some(SyncChangeV::Create(e, e, e))
            &&& eq_ignore_case(l, "Update"@) ==> c == Some(SyncChangeV::Update(e, e, e))
            &&& eq_ignore_case(l, "Delete"@) ==> c == Some(SyncChangeV::Delete(e, e))
            &&& eq_ignore_case(l, "ReadFlagChange"@) ==> c == Some(SyncChangeV::ReadFlagChange(e, e, false))
        }),
{
    reveal_strlit("Create");
    reveal_strlit("Update");
    reveal_strlit("Delete");
    reveal_strlit("ReadFlagChange");
    let l = local_name(name);
    assert(lower_seq(l).len() == l.len());
    assert(lower_seq("Create"@).len() == 6 && lower_seq("Create"@)[1] == 'r');
    assert(lower_seq("Update"@).len() == 6 && lower_seq("Update"@)[1] == 'p');
    assert(lower_seq("Delete"@).len() == 6 && lower_seq("Delete"@)[1] == 'e');
    assert(lower_seq("ReadFlagChange"@).len() == 14);
}

/// The closing tag of an open change appends it to the reply's changes, after
/// those read before it, and leaves no change open; a read-flag change takes
/// the read flag read inside it, where one was.
pub proof fn law_sync_closed_change_appended(st: SyncSt, ns: Option<Seq<char>>, name: Seq<char>)
    requires
        st.current is Some,
        ({
            let l = local_name(name);
            eq_ignore_case(l, "create"@) || eq_ignore_case(l, "update"@) || eq_ignore_case(l, "delete"@)
                || eq_ignore_case(l, "readflagchange"@)
        }),
    ensures
        ({
            let after = sync_step(st, XmlStepV::End(ns, name));
            let closed = match st.current->Some_0 {
                SyncChangeV::ReadFlagChange(id, ck, r) => SyncChangeV::ReadFlagChange(
                    id,
                    ck,
                    match st.pending_is_read {
                        Some(v) => v,
                        None => r,
                    },
                ),
                c => c,
            };
            &&& after.out.changes == st.out.changes.push(closed)
            &&& after.current is None
            &&& after.out.sync_state == st.out.sync_state
            &&& after.out.more == st.out.more
        }),
{
}

/// Inside a folder, `DisplayName` and `FolderClass` elements of the types
/// namespace give those fields the text that follows them, as written, and
/// `TotalCount` and `ChildFolderCount` give the counts that text reads as
/// (trimmed); the rest of the folder stays as it was.
pub proof fn law_folder_elements_fill_their_fields(f: FolderSt, ns: Option<Seq<char>>, name: Seq<char>, attrs: Seq<char>, t: Seq<char>)
    requires
        ews_ns(ns) == Ns::Types,
    ensures
        ({
            let l = local_name(name);
            let after = folder_step(folder_step(f, XmlStepV::Start(ns, name, attrs)), XmlStepV::Text(t)).entry;
            &&& eq_ignore_case(l, "DisplayName"@) ==> after == FolderV { display_name: t, ..f.entry }
            &&& eq_ignore_case(l, "FolderClass"@) ==> after == FolderV { folder_class: t, ..f.entry }
            &&& eq_ignore_case(l, "TotalCount"@) ==> after == FolderV { total_count: u32_of(trimmed(t)), ..f.entry }
            &&& eq_ignore_case(l, "ChildFolderCount"@) ==> after == FolderV {
                child_count: u32_of(trimmed(t)),
                ..f.entry
            }
        }),
{
    reveal_strlit("FolderId");
    reveal_strlit("ParentFolderId");
    reveal_strlit("DisplayName");
    reveal_strlit("FolderClass");
    reveal_strlit("TotalCount");
    reveal_strlit("ChildFolderCount");
    let l = local_name(name);
    assert(lower_seq(l).len() == l.len());
    assert(lower_seq("FolderId"@).len() == 8);
    assert(lower_seq("ParentFolderId"@).len() == 14);
    assert(lower_seq("DisplayName"@).len() == 11 && lower_seq("DisplayName"@)[1] == 'i');
    assert(lower_seq("FolderClass"@).len() == 11 && lower_seq("FolderClass"@)[1] == 'o');
    assert(lower_seq("TotalCount"@).len() == 10);
    assert(lower_seq("ChildFolderCount"@).len() == 16);
}

/// Each folder element name, in any case, gives its own kind of folder, and
/// no other name gives one.
pub proof fn law_folder_kinds_by_name(l: Seq<char>)
    ensures
        eq_ignore_case(l, "Folder"@) <==> folder_element_of(l) == Some(FolderElement::Folder),
        eq_ignore_case(l, "CalendarFolder"@) <==> folder_element_of(l) == Some(FolderElement::CalendarFolder),
        eq_ignore_case(l, "ContactsFolder"@) <==> folder_element_of(l) == Some(FolderElement::ContactsFolder),
        eq_ignore_case(l, "TasksFolder"@) <==> folder_element_of(l) == Some(FolderElement::TasksFolder),
        eq_ignore_case(l, "SearchFolder"@) <==> folder_element_of(l) == Some(FolderElement::SearchFolder),
{
    reveal_strlit("Folder");
    reveal_strlit("CalendarFolder");
    reveal_strlit("ContactsFolder");
    reveal_strlit("TasksFolder");
    reveal_strlit("SearchFolder");
    assert(lower_seq(l).len() == l.len());
    assert(lower_seq("Folder"@).len() == 6);
    assert(lower_seq("CalendarFolder"@).len() == 14 && lower_seq("CalendarFolder"@)[1] == 'a');
    assert(lower_seq("ContactsFolder"@).len() == 14 && lower_seq("ContactsFolder"@)[1] == 'o');
    assert(lower_seq("TasksFolder"@).len() == 11);
    assert(lower_seq("SearchFolder"@).len() == 12);
}

/// Inside an attachment reference, the text after `Name` and `ContentType`
/// elements of the types namespace becomes the attachment's name and content
/// type as written, and the text after `IsContactPhoto` marks it a contact
/// photo exactly when, trimmed, it is `true` or `1`; the rest stays as it was.
pub proof fn law_attachment_elements_fill_their_fields(st: AttRefSt, ns: Option<Seq<char>>, name: Seq<char>, attrs: Seq<char>, t: Seq<char>)
    requires
        ews_ns(ns) == Ns::Types,
    ensures
        ({
            let l = local_name(name);
            let after = att_step(att_step(st, XmlStepV::Start(ns, name, attrs)), XmlStepV::Text(t)).att;
            &&& eq_ignore_case(l, "Name"@) ==> after == AttachmentV { name: Some(t), ..st.att }
            &&& eq_ignore_case(l, "ContentType"@) ==> after == AttachmentV { content_type: Some(t), ..st.att }
            &&& eq_ignore_case(l, "IsContactPhoto"@) ==> after == AttachmentV {
                is_contact_photo: trimmed(t) == "true"@ || trimmed(t) == "1"@,
                ..st.att
            }
        }),
{
    reveal_strlit("AttachmentId");
    reveal_strlit("Name");
    reveal_strlit("ContentType");
    reveal_strlit("IsContactPhoto");
    let l = local_name(name);
    assert(lower_seq(l).len() == l.len());
    assert(lower_seq("AttachmentId"@).len() == 12);
    assert(lower_seq("Name"@).len() == 4);
    assert(lower_seq("ContentType"@).len() == 11);
    assert(lower_seq("IsContactPhoto"@).len() == 14);
}

/// Inside an attachment of a `GetAttachment` reply, the text after `Name` and
/// `ContentType` becomes the attachment's name and content type, the text after
/// `IsContactPhoto` marks it a contact photo exactly when, trimmed, it is
/// `true` or `1`, and each text after `Content` is added to the end of its
/// content, nothing lost; the rest stays as it was.
pub proof fn law_inline_elements_fill_their_fields(st: InlineSt, ns: Option<Seq<char>>, name: Seq<char>, attrs: Seq<char>, t: Seq<char>)
    requires
        ews_ns(ns) == Ns::Types,
        st.current is Some,
    ensures
        ({
            let l = local_name(name);
            let cur = st.current->Some_0;
            let after = inline_step(inline_step(st, XmlStepV::Start(ns, name, attrs)), XmlStepV::Text(t)).current;
            &&& eq_ignore_case(l, "Name"@) ==> after == Some(InlineV { name: Some(t), ..cur })
            &&& eq_ignore_case(l, "ContentType"@) ==> after == Some(InlineV { content_type: Some(t), ..cur })
            &&& eq_ignore_case(l, "IsContactPhoto"@) ==> after == Some(InlineV {
                is_contact_photo: trimmed(t) == "true"@ || trimmed(t) == "1"@,
                ..cur
            })
            &&& eq_ignore_case(l, "Content"@) ==> after == Some(InlineV { content_base64: cur.content_base64 + t, ..cur })
        }),
{
    reveal_strlit("FileAttachment");
    reveal_strlit("ItemAttachment");
    reveal_strlit("AttachmentId");
    reveal_strlit("Name");
    reveal_strlit("ContentType");
    reveal_strlit("IsContactPhoto");
    reveal_strlit("Content");
    let l = local_name(name);
    assert(lower_seq(l).len() == l.len());
    assert(lower_seq("FileAttachment"@).len() == 14 && lower_seq("FileAttachment"@)[1] == 'i');
    assert(lower_seq("ItemAttachment"@).len() == 14 && lower_seq("ItemAttachment"@)[1] == 't');
    assert(lower_seq("AttachmentId"@).len() == 12);
    assert(lower_seq("Name"@).len() == 4);
    assert(lower_seq("ContentType"@).len() == 11);
    assert(lower_seq("IsContactPhoto"@).len() == 14 && lower_seq("IsContactPhoto"@)[1] == 's');
    assert(lower_seq("Content"@).len() == 7);
}

/// The paging attributes of a `RootFolder`: `IncludesLastItemInRange` says
/// whether more items wait (more exactly when, trimmed, it is neither `true`
/// nor `1`), `TotalItemsInView` gives the total (trimmed, as a number); an
/// attribute that is absent leaves the earlier value.
pub proof fn law_paging_reads_root_attributes(attrs: Seq<char>, total: Option<u32>, more: bool)
    ensures
        ({
            let l = attrs_of(attrs);
            let (t, m) = paging(attrs, total, more);
            &&& (attr_in(l, "IncludesLastItemInRange"@) matches Some(v) ==> m == !(trimmed(v) == "true"@
                || trimmed(v) == "1"@))
            &&& (attr_in(l, "IncludesLastItemInRange"@) is None ==> m == more)
            &&& (attr_in(l, "TotalItemsInView"@) matches Some(v) ==> t == u32_of(trimmed(v)))
            &&& (attr_in(l, "TotalItemsInView"@) is None ==> t == total)
        }),
{
}

/// Inside the `RootFolder` of a `FindItem` reply, each item element of the
/// types namespace adds one item, of that element, after those before it;
/// the paging stays as it was.
pub proof fn law_find_item_collects_items(out: FindItemV, ns: Option<Seq<char>>, name: Seq<char>, attrs: Seq<char>)
    requires
        ews_ns(ns) == Ns::Types,
        item_element(local_name(name)),
    ensures
        ({
            let after = find_item_step((out, true), XmlStepV::Start(ns, name, attrs));
            &&& after.0.items == out.items.push(
                ItemEntryV { element: local_name(name), id: Seq::empty(), change_key: Seq::empty() },
            )
            &&& after.0.total_in_view == out.total_in_view
            &&& after.0.more == out.more
            &&& after.1
        }),
{
}

/// Inside a contact's e-mail addresses, phone numbers or IM addresses, each
/// `Entry` element adds one pair, after those before it: the entry's `Key`
/// attribute (empty where it has none) and the text that follows it.
pub proof fn law_contact_entries_keep_key_and_value(
    st: ContactSt,
    ns: Option<Seq<char>>,
    name: Seq<char>,
    attrs: Seq<char>,
    t: Seq<char>,
)
    requires
        st.seen_root,
        st.address is None,
        ews_ns(ns) == Ns::Types,
        eq_ignore_case(local_name(name), "Entry"@),
    ensures
        ({
            let after = contact_text(contact_tag(st, ns, name, attrs, false), t).item;
            let key = match attr_in(attrs_of(attrs), "Key"@) {
                Some(k) => k,
                None => Seq::empty(),
            };
            let c = st.item;
            &&& st.container == Some(EntryContainer::Email) ==> after == ContactV { emails: c.emails.push((key, t)), ..c }
            &&& st.container == Some(EntryContainer::Phone) ==> after == ContactV { phones: c.phones.push((key, t)), ..c }
            &&& st.container == Some(EntryContainer::Im) ==> after == ContactV { ims: c.ims.push((key, t)), ..c }
        }),
{
    reveal_strlit("DisplayName");
    reveal_strlit("GivenName");
    reveal_strlit("MiddleName");
    reveal_strlit("Surname");
    reveal_strlit("Initials");
    reveal_strlit("Nickname");
    reveal_strlit("CompanyName");
    reveal_strlit("Department");
    reveal_strlit("JobTitle");
    reveal_strlit("Generation");
    reveal_strlit("OfficeLocation");
    reveal_strlit("BusinessHomePage");
    reveal_strlit("Birthday");
    reveal_strlit("WeddingAnniversary");
    reveal_strlit("Manager");
    reveal_strlit("SpouseName");
    reveal_strlit("AssistantName");
    reveal_strlit("Profession");
    reveal_strlit("PostalAddressIndex");
    reveal_strlit("Body");
    reveal_strlit("DateTimeCreated");
    reveal_strlit("LastModifiedTime");
    reveal_strlit("ItemId");
    reveal_strlit("ParentFolderId");
    reveal_strlit("Categories");
    reveal_strlit("String");
    reveal_strlit("Children");
    reveal_strlit("Companies");
    reveal_strlit("EmailAddresses");
    reveal_strlit("PhoneNumbers");
    reveal_strlit("ImAddresses");
    reveal_strlit("PhysicalAddresses");
    reveal_strlit("Entry");
    assert(lower_seq("DisplayName"@).len() == 11);
    assert(lower_seq("GivenName"@).len() == 9);
    assert(lower_seq("MiddleName"@).len() == 10);
    assert(lower_seq("Surname"@).len() == 7);
    assert(lower_seq("Initials"@).len() == 8);
    assert(lower_seq("Nickname"@).len() == 8);
    assert(lower_seq("CompanyName"@).len() == 11);
    assert(lower_seq("Department"@).len() == 10);
    assert(lower_seq("JobTitle"@).len() == 8);
    assert(lower_seq("Generation"@).len() == 10);
    assert(lower_seq("OfficeLocation"@).len() == 14);
    assert(lower_seq("BusinessHomePage"@).len() == 16);
    assert(lower_seq("Birthday"@).len() == 8);
    assert(lower_seq("WeddingAnniversary"@).len() == 18);
    assert(lower_seq("Manager"@).len() == 7);
    assert(lower_seq("SpouseName"@).len() == 10);
    assert(lower_seq("AssistantName"@).len() == 13);
    assert(lower_seq("Profession"@).len() == 10);
    assert(lower_seq("PostalAddressIndex"@).len() == 18);
    assert(lower_seq("Body"@).len() == 4);
    assert(lower_seq("DateTimeCreated"@).len() == 15);
    assert(lower_seq("LastModifiedTime"@).len() == 16);
    assert(lower_seq("ItemId"@).len() == 6);
    assert(lower_seq("ParentFolderId"@).len() == 14);
    assert(lower_seq("Categories"@).len() == 10);
    assert(lower_seq("String"@).len() == 6);
    assert(lower_seq("Children"@).len() == 8);
    assert(lower_seq("Companies"@).len() == 9);
    assert(lower_seq("EmailAddresses"@).len() == 14);
    assert(lower_seq("PhoneNumbers"@).len() == 12);
    assert(lower_seq("ImAddresses"@).len() == 11);
    assert(lower_seq("PhysicalAddresses"@).len() == 17);
    assert(lower_seq("Entry"@).len() == 5);
    let l = local_name(name);
    assert(lower_seq(l).len() == l.len());
}

/// Inside a physical address of a contact, each part (`Street`, `City`,
/// `State`, `CountryOrRegion`, `PostalCode`) takes the text that follows it,
/// and the rest of the address stays as it was.
pub proof fn law_address_parts_fill_their_fields(
    st: ContactSt,
    ns: Option<Seq<char>>,
    name: Seq<char>,
    attrs: Seq<char>,
    t: Seq<char>,
)
    requires
        st.seen_root,
        st.address is Some,
        ews_ns(ns) == Ns::Types,
    ensures
        ({
            let l = local_name(name);
            let a = st.address->Some_0;
            let after = contact_text(contact_tag(st, ns, name, attrs, false), t).address;
            &&& eq_ignore_case(l, "Street"@) ==> after == Some(AddressV { street: Some(t), ..a })
            &&& eq_ignore_case(l, "City"@) ==> after == Some(AddressV { city: Some(t), ..a })
            &&& eq_ignore_case(l, "State"@) ==> after == Some(AddressV { state: Some(t), ..a })
            &&& eq_ignore_case(l, "CountryOrRegion"@) ==> after == Some(AddressV { country: Some(t), ..a })
            &&& eq_ignore_case(l, "PostalCode"@) ==> after == Some(AddressV { postal_code: Some(t), ..a })
        }),
{
    reveal_strlit("DisplayName");
    reveal_strlit("GivenName");
    reveal_strlit("MiddleName");
    reveal_strlit("Surname");
    reveal_strlit("Initials");
    reveal_strlit("Nickname");
    reveal_strlit("CompanyName");
    reveal_strlit("Department");
    reveal_strlit("JobTitle");
    reveal_strlit("Generation");
    reveal_strlit("OfficeLocation");
    reveal_strlit("BusinessHomePage");
    reveal_strlit("Birthday");
    reveal_strlit("WeddingAnniversary");
    reveal_strlit("Manager");
    reveal_strlit("SpouseName");
    reveal_strlit("AssistantName");
    reveal_strlit("Profession");
    reveal_strlit("PostalAddressIndex");
    reveal_strlit("Body");
    reveal_strlit("DateTimeCreated");
    reveal_strlit("LastModifiedTime");
    reveal_strlit("ItemId");
    reveal_strlit("ParentFolderId");
    reveal_strlit("Categories");
    reveal_strlit("String");
    reveal_strlit("Children");
    reveal_strlit("Companies");
    reveal_strlit("EmailAddresses");
    reveal_strlit("PhoneNumbers");
    reveal_strlit("ImAddresses");
    reveal_strlit("PhysicalAddresses");
    reveal_strlit("Entry");
    reveal_strlit("Street");
    reveal_strlit("City");
    reveal_strlit("State");
    reveal_strlit("CountryOrRegion");
    reveal_strlit("PostalCode");
    assert(lower_seq("DisplayName"@).len() == 11 && lower_seq("DisplayName"@)[0] == 'd' && lower_seq("DisplayName"@)[1] == 'i' && lower_seq("DisplayName"@)[2] == 's' && lower_seq("DisplayName"@)[3] == 'p');
    assert(lower_seq("GivenName"@).len() == 9 && lower_seq("GivenName"@)[0] == 'g' && lower_seq("GivenName"@)[1] == 'i' && lower_seq("GivenName"@)[2] == 'v' && lower_seq("GivenName"@)[3] == 'e');
    assert(lower_seq("MiddleName"@).len() == 10 && lower_seq("MiddleName"@)[0] == 'm' && lower_seq("MiddleName"@)[1] == 'i' && lower_seq("MiddleName"@)[2] == 'd' && lower_seq("MiddleName"@)[3] == 'd');
    assert(lower_seq("Surname"@).len() == 7 && lower_seq("Surname"@)[0] == 's' && lower_seq("Surname"@)[1] == 'u' && lower_seq("Surname"@)[2] == 'r' && lower_seq("Surname"@)[3] == 'n');
    assert(lower_seq("Initials"@).len() == 8 && lower_seq("Initials"@)[0] == 'i' && lower_seq("Initials"@)[1] == 'n' && lower_seq("Initials"@)[2] == 'i' && lower_seq("Initials"@)[3] == 't');
    assert(lower_seq("Nickname"@).len() == 8 && lower_seq("Nickname"@)[0] == 'n' && lower_seq("Nickname"@)[1] == 'i' && lower_seq("Nickname"@)[2] == 'c' && lower_seq("Nickname"@)[3] == 'k');
    assert(lower_seq("CompanyName"@).len() == 11 && lower_seq("CompanyName"@)[0] == 'c' && lower_seq("CompanyName"@)[1] == 'o' && lower_seq("CompanyName"@)[2] == 'm' && lower_seq("CompanyName"@)[3] == 'p');
    assert(lower_seq("Department"@).len() == 10 && lower_seq("Department"@)[0] == 'd' && lower_seq("Department"@)[1] == 'e' && lower_seq("Department"@)[2] == 'p' && lower_seq("Department"@)[3] == 'a');
    assert(lower_seq("JobTitle"@).len() == 8 && lower_seq("JobTitle"@)[0] == 'j' && lower_seq("JobTitle"@)[1] == 'o' && lower_seq("JobTitle"@)[2] == 'b' && lower_seq("JobTitle"@)[3] == 't');
    assert(lower_seq("Generation"@).len() == 10 && lower_seq("Generation"@)[0] == 'g' && lower_seq("Generation"@)[1] == 'e' && lower_seq("Generation"@)[2] == 'n' && lower_seq("Generation"@)[3] == 'e');
    assert(lower_seq("OfficeLocation"@).len() == 14 && lower_seq("OfficeLocation"@)[0] == 'o' && lower_seq("OfficeLocation"@)[1] == 'f' && lower_seq("OfficeLocation"@)[2] == 'f' && lower_seq("OfficeLocation"@)[3] == 'i');
    assert(lower_seq("BusinessHomePage"@).len() == 16 && lower_seq("BusinessHomePage"@)[0] == 'b' && lower_seq("BusinessHomePage"@)[1] == 'u' && lower_seq("BusinessHomePage"@)[2] == 's' && lower_seq("BusinessHomePage"@)[3] == 'i');
    assert(lower_seq("Birthday"@).len() == 8 && lower_seq("Birthday"@)[0] == 'b' && lower_seq("Birthday"@)[1] == 'i' && lower_seq("Birthday"@)[2] == 'r' && lower_seq("Birthday"@)[3] == 't');
    assert(lower_seq("WeddingAnniversary"@).len() == 18 && lower_seq("WeddingAnniversary"@)[0] == 'w' && lower_seq("WeddingAnniversary"@)[1] == 'e' && lower_seq("WeddingAnniversary"@)[2] == 'd' && lower_seq("WeddingAnniversary"@)[3] == 'd');
    assert(lower_seq("Manager"@).len() == 7 && lower_seq("Manager"@)[0] == 'm' && lower_seq("Manager"@)[1] == 'a' && lower_seq("Manager"@)[2] == 'n' && lower_seq("Manager"@)[3] == 'a');
    assert(lower_seq("SpouseName"@).len() == 10 && lower_seq("SpouseName"@)[0] == 's' && lower_seq("SpouseName"@)[1] == 'p' && lower_seq("SpouseName"@)[2] == 'o' && lower_seq("SpouseName"@)[3] == 'u');
    assert(lower_seq("AssistantName"@).len() == 13 && lower_seq("AssistantName"@)[0] == 'a' && lower_seq("AssistantName"@)[1] == 's' && lower_seq("AssistantName"@)[2] == 's' && lower_seq("AssistantName"@)[3] == 'i');
    assert(lower_seq("Profession"@).len() == 10 && lower_seq("Profession"@)[0] == 'p' && lower_seq("Profession"@)[1] == 'r' && lower_seq("Profession"@)[2] == 'o' && lower_seq("Profession"@)[3] == 'f');
    assert(lower_seq("PostalAddressIndex"@).len() == 18 && lower_seq("PostalAddressIndex"@)[0] == 'p' && lower_seq("PostalAddressIndex"@)[1] == 'o' && lower_seq("PostalAddressIndex"@)[2] == 's' && lower_seq("PostalAddressIndex"@)[3] == 't');
    assert(lower_seq("Body"@).len() == 4 && lower_seq("Body"@)[0] == 'b' && lower_seq("Body"@)[1] == 'o' && lower_seq("Body"@)[2] == 'd' && lower_seq("Body"@)[3] == 'y');
    assert(lower_seq("DateTimeCreated"@).len() == 15 && lower_seq("DateTimeCreated"@)[0] == 'd' && lower_seq("DateTimeCreated"@)[1] == 'a' && lower_seq("DateTimeCreated"@)[2] == 't' && lower_seq("DateTimeCreated"@)[3] == 'e');
    assert(lower_seq("LastModifiedTime"@).len() == 16 && lower_seq("LastModifiedTime"@)[0] == 'l' && lower_seq("LastModifiedTime"@)[1] == 'a' && lower_seq("LastModifiedTime"@)[2] == 's' && lower_seq("LastModifiedTime"@)[3] == 't');
    assert(lower_seq("ItemId"@).len() == 6 && lower_seq("ItemId"@)[0] == 'i' && lower_seq("ItemId"@)[1] == 't' && lower_seq("ItemId"@)[2] == 'e' && lower_seq("ItemId"@)[3] == 'm');
    assert(lower_seq("ParentFolderId"@).len() == 14 && lower_seq("ParentFolderId"@)[0] == 'p' && lower_seq("ParentFolderId"@)[1] == 'a' && lower_seq("ParentFolderId"@)[2] == 'r' && lower_seq("ParentFolderId"@)[3] == 'e');
    assert(lower_seq("Categories"@).len() == 10 && lower_seq("Categories"@)[0] == 'c' && lower_seq("Categories"@)[1] == 'a' && lower_seq("Categories"@)[2] == 't' && lower_seq("Categories"@)[3] == 'e');
    assert(lower_seq("String"@).len() == 6 && lower_seq("String"@)[0] == 's' && lower_seq("String"@)[1] == 't' && lower_seq("String"@)[2] == 'r' && lower_seq("String"@)[3] == 'i');
    assert(lower_seq("Children"@).len() == 8 && lower_seq("Children"@)[0] == 'c' && lower_seq("Children"@)[1] == 'h' && lower_seq("Children"@)[2] == 'i' && lower_seq("Children"@)[3] == 'l');
    assert(lower_seq("Companies"@).len() == 9 && lower_seq("Companies"@)[0] == 'c' && lower_seq("Companies"@)[1] == 'o' && lower_seq("Companies"@)[2] == 'm' && lower_seq("Companies"@)[3] == 'p');
    assert(lower_seq("EmailAddresses"@).len() == 14 && lower_seq("EmailAddresses"@)[0] == 'e' && lower_seq("EmailAddresses"@)[1] == 'm' && lower_seq("EmailAddresses"@)[2] == 'a' && lower_seq("EmailAddresses"@)[3] == 'i');
    assert(lower_seq("PhoneNumbers"@).len() == 12 && lower_seq("PhoneNumbers"@)[0] == 'p' && lower_seq("PhoneNumbers"@)[1] == 'h' && lower_seq("PhoneNumbers"@)[2] == 'o' && lower_seq("PhoneNumbers"@)[3] == 'n');
    assert(lower_seq("ImAddresses"@).len() == 11 && lower_seq("ImAddresses"@)[0] == 'i' && lower_seq("ImAddresses"@)[1] == 'm' && lower_seq("ImAddresses"@)[2] == 'a' && lower_seq("ImAddresses"@)[3] == 'd');
    assert(lower_seq("PhysicalAddresses"@).len() == 17 && lower_seq("PhysicalAddresses"@)[0] == 'p' && lower_seq("PhysicalAddresses"@)[1] == 'h' && lower_seq("PhysicalAddresses"@)[2] == 'y' && lower_seq("PhysicalAddresses"@)[3] == 's');
    assert(lower_seq("Entry"@).len() == 5 && lower_seq("Entry"@)[0] == 'e' && lower_seq("Entry"@)[1] == 'n' && lower_seq("Entry"@)[2] == 't' && lower_seq("Entry"@)[3] == 'r');
    assert(lower_seq("Street"@).len() == 6 && lower_seq("Street"@)[0] == 's' && lower_seq("Street"@)[1] == 't' && lower_seq("Street"@)[2] == 'r' && lower_seq("Street"@)[3] == 'e');
    assert(lower_seq("City"@).len() == 4 && lower_seq("City"@)[0] == 'c' && lower_seq("City"@)[1] == 'i' && lower_seq("City"@)[2] == 't' && lower_seq("City"@)[3] == 'y');
    assert(lower_seq("State"@).len() == 5 && lower_seq("State"@)[0] == 's' && lower_seq("State"@)[1] == 't' && lower_seq("State"@)[2] == 'a' && lower_seq("State"@)[3] == 't');
    assert(lower_seq("CountryOrRegion"@).len() == 15 && lower_seq("CountryOrRegion"@)[0] == 'c' && lower_seq("CountryOrRegion"@)[1] == 'o' && lower_seq("CountryOrRegion"@)[2] == 'u' && lower_seq("CountryOrRegion"@)[3] == 'n');
    assert(lower_seq("PostalCode"@).len() == 10 && lower_seq("PostalCode"@)[0] == 'p' && lower_seq("PostalCode"@)[1] == 'o' && lower_seq("PostalCode"@)[2] == 's' && lower_seq("PostalCode"@)[3] == 't');
    let l = local_name(name);
    assert(lower_seq(l).len() == l.len());
}

/// The end of an address entry adds the address read, after those before
/// it, and no address stays open.
pub proof fn law_address_entry_end_adds_it(st: ContactSt, ns: Option<Seq<char>>, name: Seq<char>)
    requires
        st.address is Some,
        eq_ignore_case(local_name(name), "entry"@),
    ensures
        contact_end(st, name).item == (ContactV { addresses: st.item.addresses.push(st.address->Some_0), ..st.item }),
        contact_end(st, name).address is None,
{
    reveal_strlit("categories");
    reveal_strlit("children");
    reveal_strlit("companies");
    reveal_strlit("emailaddresses");
    reveal_strlit("phonenumbers");
    reveal_strlit("imaddresses");
    reveal_strlit("physicaladdresses");
    reveal_strlit("entry");
    let l = local_name(name);
    assert(lower_seq(l).len() == l.len());
    assert(lower_seq("categories"@).len() == 10);
    assert(lower_seq("children"@).len() == 8);
    assert(lower_seq("companies"@).len() == 9);
    assert(lower_seq("emailaddresses"@).len() == 14);
    assert(lower_seq("phonenumbers"@).len() == 12);
    assert(lower_seq("imaddresses"@).len() == 11);
    assert(lower_seq("physicaladdresses"@).len() == 17);
    assert(lower_seq("entry"@).len() == 5);
}

/// Inside an attendee of a calendar item, the text after its `ResponseType`
/// becomes its response, and, inside its mailbox, the text after `Name` and
/// `EmailAddress` its name and address; the rest of the attendee stays as it
/// was.
pub proof fn law_attendee_parts_fill_their_fields(
    st: CalSt,
    ns: Option<Seq<char>>,
    name: Seq<char>,
    attrs: Seq<char>,
    t: Seq<char>,
)
    requires
        st.item.element.len() > 0,
        ews_ns(ns) == Ns::Types,
        st.depth == 0,
        !st.in_modified,
        !st.in_deleted,
        !st.in_organizer,
        st.attendee is Some,
    ensures
        ({
            let l = local_name(name);
            let a = st.attendee->Some_0;
            let after = cal_text(cal_tag(st, ns, name, attrs, false), t).attendee;
            &&& eq_ignore_case(l, "ResponseType"@) ==> after == Some(AttendeeV { response_type: Some(t), ..a })
            &&& (st.in_mailbox && eq_ignore_case(l, "Name"@)) ==> after == Some(AttendeeV { name: Some(t), ..a })
            &&& (st.in_mailbox && eq_ignore_case(l, "EmailAddress"@)) ==> after == Some(AttendeeV { email: Some(t), ..a })
        }),
{
    reveal_strlit("ItemId");
    reveal_strlit("ParentFolderId");
    reveal_strlit("UID");
    reveal_strlit("Subject");
    reveal_strlit("Start");
    reveal_strlit("End");
    reveal_strlit("OriginalStart");
    reveal_strlit("IsAllDayEvent");
    reveal_strlit("LegacyFreeBusyStatus");
    reveal_strlit("Location");
    reveal_strlit("CalendarItemType");
    reveal_strlit("RecurrenceId");
    reveal_strlit("StartTimeZone");
    reveal_strlit("EndTimeZone");
    reveal_strlit("Recurrence");
    reveal_strlit("ModifiedOccurrences");
    reveal_strlit("DeletedOccurrences");
    reveal_strlit("Occurrence");
    reveal_strlit("DeletedOccurrence");
    reveal_strlit("Organizer");
    reveal_strlit("RequiredAttendees");
    reveal_strlit("OptionalAttendees");
    reveal_strlit("Attendee");
    reveal_strlit("Mailbox");
    reveal_strlit("Name");
    reveal_strlit("EmailAddress");
    reveal_strlit("ResponseType");
    assert(lower_seq("ItemId"@).len() == 6 && lower_seq("ItemId"@)[0] == 'i' && lower_seq("ItemId"@)[1] == 't' && lower_seq("ItemId"@)[2] == 'e' && lower_seq("ItemId"@)[3] == 'm');
    assert(lower_seq("ParentFolderId"@).len() == 14 && lower_seq("ParentFolderId"@)[0] == 'p' && lower_seq("ParentFolderId"@)[1] == 'a' && lower_seq("ParentFolderId"@)[2] == 'r' && lower_seq("ParentFolderId"@)[3] == 'e');
    assert(lower_seq("UID"@).len() == 3 && lower_seq("UID"@)[0] == 'u' && lower_seq("UID"@)[1] == 'i' && lower_seq("UID"@)[2] == 'd');
    assert(lower_seq("Subject"@).len() == 7 && lower_seq("Subject"@)[0] == 's' && lower_seq("Subject"@)[1] == 'u' && lower_seq("Subject"@)[2] == 'b' && lower_seq("Subject"@)[3] == 'j');
    assert(lower_seq("Start"@).len() == 5 && lower_seq("Start"@)[0] == 's' && lower_seq("Start"@)[1] == 't' && lower_seq("Start"@)[2] == 'a' && lower_seq("Start"@)[3] == 'r');
    assert(lower_seq("End"@).len() == 3 && lower_seq("End"@)[0] == 'e' && lower_seq("End"@)[1] == 'n' && lower_seq("End"@)[2] == 'd');
    assert(lower_seq("OriginalStart"@).len() == 13 && lower_seq("OriginalStart"@)[0] == 'o' && lower_seq("OriginalStart"@)[1] == 'r' && lower_seq("OriginalStart"@)[2] == 'i' && lower_seq("OriginalStart"@)[3] == 'g');
    assert(lower_seq("IsAllDayEvent"@).len() == 13 && lower_seq("IsAllDayEvent"@)[0] == 'i' && lower_seq("IsAllDayEvent"@)[1] == 's' && lower_seq("IsAllDayEvent"@)[2] == 'a' && lower_seq("IsAllDayEvent"@)[3] == 'l');
    assert(lower_seq("LegacyFreeBusyStatus"@).len() == 20 && lower_seq("LegacyFreeBusyStatus"@)[0] == 'l' && lower_seq("LegacyFreeBusyStatus"@)[1] == 'e' && lower_seq("LegacyFreeBusyStatus"@)[2] == 'g' && lower_seq("LegacyFreeBusyStatus"@)[3] == 'a');
    assert(lower_seq("Location"@).len() == 8 && lower_seq("Location"@)[0] == 'l' && lower_seq("Location"@)[1] == 'o' && lower_seq("Location"@)[2] == 'c' && lower_seq("Location"@)[3] == 'a');
    assert(lower_seq("CalendarItemType"@).len() == 16 && lower_seq("CalendarItemType"@)[0] == 'c' && lower_seq("CalendarItemType"@)[1] == 'a' && lower_seq("CalendarItemType"@)[2] == 'l' && lower_seq("CalendarItemType"@)[3] == 'e');
    assert(lower_seq("RecurrenceId"@).len() == 12 && lower_seq("RecurrenceId"@)[0] == 'r' && lower_seq("RecurrenceId"@)[1] == 'e' && lower_seq("RecurrenceId"@)[2] == 'c' && lower_seq("RecurrenceId"@)[3] == 'u');
    assert(lower_seq("StartTimeZone"@).len() == 13 && lower_seq("StartTimeZone"@)[0] == 's' && lower_seq("StartTimeZone"@)[1] == 't' && lower_seq("StartTimeZone"@)[2] == 'a' && lower_seq("StartTimeZone"@)[3] == 'r');
    assert(lower_seq("EndTimeZone"@).len() == 11 && lower_seq("EndTimeZone"@)[0] == 'e' && lower_seq("EndTimeZone"@)[1] == 'n' && lower_seq("EndTimeZone"@)[2] == 'd' && lower_seq("EndTimeZone"@)[3] == 't');
    assert(lower_seq("Recurrence"@).len() == 10 && lower_seq("Recurrence"@)[0] == 'r' && lower_seq("Recurrence"@)[1] == 'e' && lower_seq("Recurrence"@)[2] == 'c' && lower_seq("Recurrence"@)[3] == 'u');
    assert(lower_seq("ModifiedOccurrences"@).len() == 19 && lower_seq("ModifiedOccurrences"@)[0] == 'm' && lower_seq("ModifiedOccurrences"@)[1] == 'o' && lower_seq("ModifiedOccurrences"@)[2] == 'd' && lower_seq("ModifiedOccurrences"@)[3] == 'i');
    assert(lower_seq("DeletedOccurrences"@).len() == 18 && lower_seq("DeletedOccurrences"@)[0] == 'd' && lower_seq("DeletedOccurrences"@)[1] == 'e' && lower_seq("DeletedOccurrences"@)[2] == 'l' && lower_seq("DeletedOccurrences"@)[3] == 'e');
    assert(lower_seq("Occurrence"@).len() == 10 && lower_seq("Occurrence"@)[0] == 'o' && lower_seq("Occurrence"@)[1] == 'c' && lower_seq("Occurrence"@)[2] == 'c' && lower_seq("Occurrence"@)[3] == 'u');
    assert(lower_seq("DeletedOccurrence"@).len() == 17 && lower_seq("DeletedOccurrence"@)[0] == 'd' && lower_seq("DeletedOccurrence"@)[1] == 'e' && lower_seq("DeletedOccurrence"@)[2] == 'l' && lower_seq("DeletedOccurrence"@)[3] == 'e');
    assert(lower_seq("Organizer"@).len() == 9 && lower_seq("Organizer"@)[0] == 'o' && lower_seq("Organizer"@)[1] == 'r' && lower_seq("Organizer"@)[2] == 'g' && lower_seq("Organizer"@)[3] == 'a');
    assert(lower_seq("RequiredAttendees"@).len() == 17 && lower_seq("RequiredAttendees"@)[0] == 'r' && lower_seq("RequiredAttendees"@)[1] == 'e' && lower_seq("RequiredAttendees"@)[2] == 'q' && lower_seq("RequiredAttendees"@)[3] == 'u');
    assert(lower_seq("OptionalAttendees"@).len() == 17 && lower_seq("OptionalAttendees"@)[0] == 'o' && lower_seq("OptionalAttendees"@)[1] == 'p' && lower_seq("OptionalAttendees"@)[2] == 't' && lower_seq("OptionalAttendees"@)[3] == 'i');
    assert(lower_seq("Attendee"@).len() == 8 && lower_seq("Attendee"@)[0] == 'a' && lower_seq("Attendee"@)[1] == 't' && lower_seq("Attendee"@)[2] == 't' && lower_seq("Attendee"@)[3] == 'e');
    assert(lower_seq("Mailbox"@).len() == 7 && lower_seq("Mailbox"@)[0] == 'm' && lower_seq("Mailbox"@)[1] == 'a' && lower_seq("Mailbox"@)[2] == 'i' && lower_seq("Mailbox"@)[3] == 'l');
    assert(lower_seq("Name"@).len() == 4 && lower_seq("Name"@)[0] == 'n' && lower_seq("Name"@)[1] == 'a' && lower_seq("Name"@)[2] == 'm' && lower_seq("Name"@)[3] == 'e');
    assert(lower_seq("EmailAddress"@).len() == 12 && lower_seq("EmailAddress"@)[0] == 'e' && lower_seq("EmailAddress"@)[1] == 'm' && lower_seq("EmailAddress"@)[2] == 'a' && lower_seq("EmailAddress"@)[3] == 'i');
    assert(lower_seq("ResponseType"@).len() == 12 && lower_seq("ResponseType"@)[0] == 'r' && lower_seq("ResponseType"@)[1] == 'e' && lower_seq("ResponseType"@)[2] == 's' && lower_seq("ResponseType"@)[3] == 'p');
    let l = local_name(name);
    assert(lower_seq(l).len() == l.len());
}

/// The end of an attendee files it, after those before it, among the
/// required or the optional attendees, as the list it stood in says.
pub proof fn law_attendee_end_files_it(st: CalSt, ns: Option<Seq<char>>, name: Seq<char>)
    requires
        st.depth == 0,
        st.attendee is Some,
        eq_ignore_case(local_name(name), "attendee"@),
    ensures
        ({
            let a = st.attendee->Some_0;
            let after = cal_end(st, name);
            &&& st.attendee_kind == Some(AttendeeKind::Required) ==> after.item == (CalendarV {
                required_attendees: st.item.required_attendees.push(a),
                ..st.item
            })
            &&& st.attendee_kind == Some(AttendeeKind::Optional) ==> after.item == (CalendarV {
                optional_attendees: st.item.optional_attendees.push(a),
                ..st.item
            })
            &&& after.attendee is None
        }),
{
    reveal_strlit("modifiedoccurrences");
    reveal_strlit("deletedoccurrences");
    reveal_strlit("occurrence");
    reveal_strlit("deletedoccurrence");
    reveal_strlit("attendee");
    let l = local_name(name);
    assert(lower_seq(l).len() == l.len());
    assert(lower_seq("modifiedoccurrences"@).len() == 19);
    assert(lower_seq("deletedoccurrences"@).len() == 18);
    assert(lower_seq("occurrence"@).len() == 10);
    assert(lower_seq("deletedoccurrence"@).len() == 17);
    assert(lower_seq("attendee"@).len() == 8);
}
} // verus!
