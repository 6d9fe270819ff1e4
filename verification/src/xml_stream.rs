//! The events of a namespace-aware XML pull parser, as plain values.
//!
//! `quick_xml` reads the document; this module turns what it reports into
//! [`XmlStep`]s and collects them, so that the parsers of the service replies
//! work on a sequence of steps that their contracts can speak of.

use vstd::prelude::*;
use quick_xml::events::attributes::{Attribute, Attributes};
use quick_xml::events::Event::{CData, Empty, End, Eof, GeneralRef, Start, Text};
use quick_xml::name::ResolveResult::Bound;
use quick_xml::NsReader;
use quick_xml::XmlVersion;

verus! {

/// `quick_xml::NsReader`, carried through unchanged.
#[verifier::external_type_specification]
#[verifier::external_body]
#[verifier::reject_recursive_types(R)]
pub struct ExNsReader<R>(quick_xml::NsReader<R>);

/// One event of the reader.
#[derive(Debug, Clone)]
pub enum XmlStep {
    /// An opening tag: the namespace its name is bound to, its qualified name
    /// and the text of its attributes.
    Start(Option<String>, String, String),
    /// A self-closing tag, as `Start`.
    Empty(Option<String>, String, String),
    /// A closing tag: the namespace its name is bound to and its qualified name.
    End(Option<String>, String),
    /// Character data between tags.
    Text(String),
    /// The content of a CDATA section.
    CData(String),
    /// Anything else (declarations, comments, processing instructions,
    /// entity references).
    Other,
    /// The end of the document.
    Eof,
    /// The reader's error message.
    Failed(String),
}

pub enum XmlStepV {
    Start(Option<Seq<char>>, Seq<char>, Seq<char>),
    Empty(Option<Seq<char>>, Seq<char>, Seq<char>),
    End(Option<Seq<char>>, Seq<char>),
    Text(Seq<char>),
    CData(Seq<char>),
    Other,
    Eof,
    Failed(Seq<char>),
}

pub open spec fn opt_string_view(o: Option<String>) -> Option<Seq<char>> {
    match o {
        Some(s) => Some(s@),
        None => None,
    }
}

impl View for XmlStep {
    type V = XmlStepV;

    open spec fn view(&self) -> XmlStepV {
        match self {
            XmlStep::Start(ns, name, attrs) => XmlStepV::Start(opt_string_view(*ns), name@, attrs@),
            XmlStep::Empty(ns, name, attrs) => XmlStepV::Empty(opt_string_view(*ns), name@, attrs@),
            XmlStep::End(ns, name) => XmlStepV::End(opt_string_view(*ns), name@),
            XmlStep::Text(t) => XmlStepV::Text(t@),
            XmlStep::CData(t) => XmlStepV::CData(t@),
            XmlStep::Other => XmlStepV::Other,
            XmlStep::Eof => XmlStepV::Eof,
            XmlStep::Failed(m) => XmlStepV::Failed(m@),
        }
    }
}

/// The end of the document or a failure: the reader reports nothing after it.
pub open spec fn is_terminal(s: XmlStepV) -> bool {
    s is Eof || s is Failed
}

/// A sequence of steps that ends with its only terminal step.
pub open spec fn well_ended(s: Seq<XmlStepV>) -> bool {
    &&& s.len() > 0
    &&& is_terminal(s.last())
    &&& forall|i: int| 0 <= i < s.len() - 1 ==> !is_terminal(#[trigger] s[i])
}

pub open spec fn steps_view(v: Seq<XmlStep>) -> Seq<XmlStepV> {
    v.map_values(|s: XmlStep| s@)
}

/// An event as the reader reports it; a tag carries its whole text, name and
/// attributes.
#[derive(Debug)]
pub enum RawStep {
    Start(Option<String>, String),
    Empty(Option<String>, String),
    End(Option<String>, String),
    Text(String),
    /// A character or entity reference in text: what stands between `&` and `;`.
    Ref(String),
    CData(String),
    Other,
    Eof,
    Failed(String),
}

pub enum RawStepV {
    Start(Option<Seq<char>>, Seq<char>),
    Empty(Option<Seq<char>>, Seq<char>),
    End(Option<Seq<char>>, Seq<char>),
    Text(Seq<char>),
    Ref(Seq<char>),
    CData(Seq<char>),
    Other,
    Eof,
    Failed(Seq<char>),
}

impl View for RawStep {
    type V = RawStepV;

    open spec fn view(&self) -> RawStepV {
        match self {
            RawStep::Start(ns, t) => RawStepV::Start(opt_string_view(*ns), t@),
            RawStep::Empty(ns, t) => RawStepV::Empty(opt_string_view(*ns), t@),
            RawStep::End(ns, t) => RawStepV::End(opt_string_view(*ns), t@),
            RawStep::Text(t) => RawStepV::Text(t@),
            RawStep::Ref(t) => RawStepV::Ref(t@),
            RawStep::CData(t) => RawStepV::CData(t@),
            RawStep::Other => RawStepV::Other,
            RawStep::Eof => RawStepV::Eof,
            RawStep::Failed(m) => RawStepV::Failed(m@),
        }
    }
}

pub open spec fn raw_terminal(s: RawStepV) -> bool {
    s is Eof || s is Failed
}

/// A sequence of reader events that ends with its only terminal event.
pub open spec fn raw_well_ended(s: Seq<RawStepV>) -> bool {
    &&& s.len() > 0
    &&& raw_terminal(s.last())
    &&& forall|i: int| 0 <= i < s.len() - 1 ==> !raw_terminal(#[trigger] s[i])
}

/// The white space that ends a tag's name.
pub open spec fn xml_space(c: char) -> bool {
    c == ' ' || c == '\r' || c == '\n' || c == '\t'
}

/// The length of a tag's name: its text up to the first white space.
pub open spec fn name_len(t: Seq<char>) -> int
    decreases t.len(),
{
    if t.len() == 0 {
        0
    } else if xml_space(t[0]) {
        0
    } else {
        1 + name_len(t.drop_first())
    }
}

/// The step that a reader event gives, a tag's text split into its name and
/// its attribute text.
pub open spec fn cooked(r: RawStepV) -> XmlStepV {
    match r {
        RawStepV::Start(ns, t) => XmlStepV::Start(ns, t.take(name_len(t)), t.skip(name_len(t))),
        RawStepV::Empty(ns, t) => XmlStepV::Empty(ns, t.take(name_len(t)), t.skip(name_len(t))),
        RawStepV::End(ns, t) => XmlStepV::End(ns, t),
        RawStepV::Text(t) => XmlStepV::Text(t),
        RawStepV::Ref(n) => XmlStepV::Other,
        RawStepV::CData(t) => XmlStepV::CData(t),
        RawStepV::Other => XmlStepV::Other,
        RawStepV::Eof => XmlStepV::Eof,
        RawStepV::Failed(m) => XmlStepV::Failed(m),
    }
}

/// The steps that reader events give, one for each. A text event stands
/// alone: text that entity references split comes as several text steps,
/// and a reference itself is an `Other` step.
pub open spec fn event_steps(raw: Seq<RawStepV>) -> Seq<XmlStepV>
    decreases raw.len(),
{
    if raw.len() == 0 {
        Seq::empty()
    } else {
        event_steps(raw.drop_last()).push(cooked(raw.last()))
    }
}

/// The events that a reader will still report, up to and including the end
/// of the document or its first failure.
pub uninterp spec fn xml_pending(r: NsReader<&[u8]>) -> Seq<RawStepV>;

/// The events that `quick_xml` reports for a document, with or without the
/// trimming of white space around text.
pub uninterp spec fn xml_document(input: Seq<u8>, trim: bool) -> Seq<RawStepV>;

/// The steps of a document.
pub open spec fn document_steps(input: Seq<u8>, trim: bool) -> Seq<XmlStepV> {
    event_steps(xml_document(input, trim))
}

/// The attributes that `quick_xml` reads from the attribute text of a tag:
/// for each, in order, its qualified key and raw value, or `None` for a
/// malformed attribute.
pub uninterp spec fn xml_attribute_list(raw: Seq<char>) -> Seq<Option<(Seq<char>, Seq<char>)>>;

/// The value of an attribute normalised as XML 1.0 prescribes (references
/// resolved, line breaks and tabs made spaces), or `None` where a reference
/// cannot be resolved.
pub uninterp spec fn xml_normalized_value(raw: Seq<char>) -> Option<Seq<char>>;

/// `quick_xml::NsReader::from_reader` on a byte slice, then `trim_text`. The
/// reader will report the events of the document, which end with the end of
/// the document or a failure (the reader consumes its input and stops there).
#[verifier::external_body]
fn xml_reader<'a>(input: &'a [u8], trim: bool) -> (r: NsReader<&'a [u8]>)
    ensures
        xml_pending(r) == xml_document(input@, trim),
        raw_well_ended(xml_pending(r)),
{
    let mut r = NsReader::from_reader(input);
    r.config_mut().trim_text(trim);
    r
}

/// `quick_xml::NsReader::read_resolved_event`: the next event of the reader,
/// with the namespace of a tag's name where it is bound.
#[verifier::external_body]
fn read_event(xml: &mut NsReader<&[u8]>) -> (s: RawStep)
    requires
        xml_pending(*old(xml)).len() > 0,
    ensures
        s@ == xml_pending(*old(xml))[0],
        xml_pending(*final(xml)) == xml_pending(*old(xml)).drop_first(),
{
    let (ns, ev) = match xml.read_resolved_event() { Ok(p) => p, Err(e) => return RawStep::Failed(e.to_string()) };
    let ns = if let Bound(n) = ns { Some(n.0.to_owned()) } else { None };
    match ev {
        Start(e) => RawStep::Start(ns, e.to_string()),
        Empty(e) => RawStep::Empty(ns, e.to_string()),
        End(e) => RawStep::End(ns, e.to_string()),
        Text(t) => RawStep::Text(t.to_string()),
        GeneralRef(r) => RawStep::Ref(r.to_string()),
        CData(c) => RawStep::CData(c.to_string()),
        Eof => RawStep::Eof,
        _ => RawStep::Other,
    }
}

/// `quick_xml::events::attributes::Attributes` over the attribute text of a
/// tag: each attribute's qualified key and raw value, `None` for one that the
/// iterator reports as malformed.
#[verifier::external_body]
fn attribute_list(raw: &str) -> (r: Vec<Option<(String, String)>>)
    ensures
        r@.map_values(|a: Option<(String, String)>| pair_view(a)) == xml_attribute_list(raw@),
{
    Attributes::new(raw, 0).map(|a| a.ok().map(|a| (a.key.0.to_owned(), a.value.into_owned()))).collect()
}

/// `quick_xml::events::attributes::Attribute::normalized_value` for XML 1.0.
#[verifier::external_body]
fn normalized_value(key: &str, value: &str) -> (r: Option<String>)
    ensures
        opt_string_view(r) == xml_normalized_value(value@),
{
    let a = Attribute { key: quick_xml::name::QName(key), value: std::borrow::Cow::Borrowed(value) };
    a.normalized_value(XmlVersion::Implicit1_0).ok().map(|c| c.into_owned())
}

pub open spec fn pair_view(a: Option<(String, String)>) -> Option<(Seq<char>, Seq<char>)> {
    match a {
        Some((k, v)) => Some((k@, v@)),
        None => None,
    }
}

proof fn lemma_name_len(t: Seq<char>, k: int)
    requires
        0 <= k <= t.len(),
        k == t.len() || xml_space(t[k]),
        forall|j: int| 0 <= j < k ==> !xml_space(t[j]),
    ensures
        name_len(t) == k,
    decreases k,
{
    if k > 0 {
        lemma_name_len(t.drop_first(), k - 1);
    }
}

/// A tag's text split into its name and its attribute text.
fn split_tag(t: &str) -> (r: (String, String))
    ensures
        r.0@ == t@.take(name_len(t@)),
        r.1@ == t@.skip(name_len(t@)),
{
    let v = crate::text::chars_of(t);
    let mut k: usize = 0;
    while k < v.len() && !(v[k] == ' ' || v[k] == '\r' || v[k] == '\n' || v[k] == '\t')
        invariant
            v@ == t@,
            k <= v@.len(),
            forall|j: int| 0 <= j < k ==> !xml_space(t@[j]),
        decreases v.len() - k,
    {
        k = k + 1;
    }
    proof {
        lemma_name_len(t@, k as int);
    }
    let mut name = String::new();
    let mut i: usize = 0;
    while i < k
        invariant
            v@ == t@,
            i <= k <= v@.len(),
            name@ == t@.take(i as int),
        decreases k - i,
    {
        crate::text::push_char(&mut name, v[i]);
        assert(t@.take(i + 1) =~= t@.take(i as int).push(t@[i as int]));
        i = i + 1;
    }
    let mut rest = String::new();
    let mut j: usize = k;
    while j < v.len()
        invariant
            v@ == t@,
            k <= j <= v@.len(),
            rest@ == t@.subrange(k as int, j as int),
        decreases v.len() - j,
    {
        crate::text::push_char(&mut rest, v[j]);
        assert(t@.subrange(k as int, j + 1) =~= t@.subrange(k as int, j as int).push(t@[j as int]));
        j = j + 1;
    }
    assert(t@.skip(k as int) =~= t@.subrange(k as int, t@.len() as int));
    (name, rest)
}

/// The step that a reader event gives.
fn cook(r: RawStep) -> (s: XmlStep)
    ensures
        s@ == cooked(r@),
{
    match r {
        RawStep::Start(ns, t) => {
            let (name, attrs) = split_tag(t.as_str());
            XmlStep::Start(ns, name, attrs)
        },
        RawStep::Empty(ns, t) => {
            let (name, attrs) = split_tag(t.as_str());
            XmlStep::Empty(ns, name, attrs)
        },
        RawStep::End(ns, t) => XmlStep::End(ns, t),
        RawStep::Text(t) => XmlStep::Text(t),
        RawStep::Ref(_) => XmlStep::Other,
        RawStep::CData(t) => XmlStep::CData(t),
        RawStep::Other => XmlStep::Other,
        RawStep::Eof => XmlStep::Eof,
        RawStep::Failed(m) => XmlStep::Failed(m),
    }
}

/// No step made of events that are not terminal is terminal.
proof fn lemma_steps_not_terminal(raw: Seq<RawStepV>)
    requires
        forall|i: int| 0 <= i < raw.len() ==> !raw_terminal(#[trigger] raw[i]),
    ensures
        forall|j: int| 0 <= j < event_steps(raw).len() ==> !is_terminal(#[trigger] event_steps(raw)[j]),
    decreases raw.len(),
{
    if raw.len() > 0 {
        let d = raw.drop_last();
        assert forall|i: int| 0 <= i < d.len() implies !raw_terminal(#[trigger] d[i]) by {
            assert(d[i] == raw[i]);
        }
        lemma_steps_not_terminal(d);
        assert(!raw_terminal(raw[raw.len() - 1]));
        let m = event_steps(d);
        let r = m.push(cooked(raw.last()));
        assert forall|j: int| 0 <= j < r.len() implies !is_terminal(#[trigger] r[j]) by {
            if j < r.len() - 1 {
                assert(r[j] == m[j]);
            }
        }
    }
}

/// All steps of a document, up to and including its end or its first failure.
pub fn xml_steps(input: &[u8], trim: bool) -> (r: Vec<XmlStep>)
    ensures
        steps_view(r@) == document_steps(input@, trim),
        well_ended(steps_view(r@)),
{
    let mut xml = xml_reader(input, trim);
    let ghost all = xml_document(input@, trim);
    let mut out: Vec<XmlStep> = Vec::new();
    let ghost mut read: int = 0;
    assert(all.take(0) =~= Seq::<RawStepV>::empty());
    assert(all.skip(0) =~= all);
    loop
        invariant
            all == xml_document(input@, trim),
            raw_well_ended(all),
            raw_well_ended(xml_pending(xml)),
            0 <= read,
            read + xml_pending(xml).len() == all.len(),
            xml_pending(xml) == all.skip(read),
            steps_view(out@) == event_steps(all.take(read)),
        decreases xml_pending(xml).len(),
    {
        let ghost before = xml_pending(xml);
        let e = read_event(&mut xml);
        let done = match &e {
            RawStep::Eof => true,
            RawStep::Failed(_) => true,
            _ => false,
        };
        proof {
            assert(before[0] == all[read]);
            assert(all.take(read + 1).drop_last() =~= all.take(read));
            assert(all.take(read + 1).last() == all[read]);
            assert(xml_pending(xml) =~= all.skip(read + 1));
        }
        let step = cook(e);
        proof {
            assert(steps_view(out@.push(step)) =~= steps_view(out@).push(step@));
        }
        out.push(step);
        proof {
            read = read + 1;
        }
        if done {
            proof {
                assert(raw_terminal(before[0]));
                if before.len() > 1 {
                    assert(!raw_terminal(before[0]));
                }
                assert(read == all.len());
                assert(all.take(read) =~= all);
                let d = all.drop_last();
                assert forall|i: int| 0 <= i < d.len() implies !raw_terminal(#[trigger] d[i]) by {
                    assert(d[i] == all[i]);
                }
                lemma_steps_not_terminal(d);
                assert(all.drop_last() == d);
                assert(event_steps(all) == event_steps(d).push(cooked(all.last())));
                let r = event_steps(all);
                assert(r.last() == cooked(all.last()));
                assert(raw_terminal(all.last()));
                assert(is_terminal(r.last()));
                assert(steps_view(out@) == r);
                assert forall|j: int| 0 <= j < r.len() - 1 implies !is_terminal(#[trigger] r[j]) by {
                    assert(r[j] == event_steps(d)[j]);
                }
            }
            return out;
        }
        proof {
            assert(!raw_terminal(before[0]));
            assert(before.len() > 1);
            assert forall|i: int| 0 <= i < xml_pending(xml).len() - 1 implies !raw_terminal(#[trigger] xml_pending(xml)[i]) by {
                assert(xml_pending(xml)[i] == before[i + 1]);
            }
        }
    }
}

/// The attributes of a tag as `(key, raw value)` pairs, malformed ones left out.
pub open spec fn wellformed_attributes(l: Seq<Option<(Seq<char>, Seq<char>)>>) -> Seq<(Seq<char>, Seq<char>)>
    decreases l.len(),
{
    if l.len() == 0 {
        Seq::empty()
    } else {
        let rest = wellformed_attributes(l.drop_last());
        match l.last() {
            Some(p) => rest.push(p),
            None => rest,
        }
    }
}

/// The well-formed attributes of a tag, in order.
pub fn tag_attributes(raw: &str) -> (r: Vec<(String, String)>)
    ensures
        r@.map_values(|p: (String, String)| (p.0@, p.1@)) == wellformed_attributes(xml_attribute_list(raw@)),
{
    let list = attribute_list(raw);
    let ghost l = xml_attribute_list(raw@);
    let mut out: Vec<(String, String)> = Vec::new();
    let mut i: usize = 0;
    while i < list.len()
        invariant
            i <= list@.len(),
            list@.map_values(|a: Option<(String, String)>| pair_view(a)) == l,
            out@.map_values(|p: (String, String)| (p.0@, p.1@)) == wellformed_attributes(l.take(i as int)),
        decreases list.len() - i,
    {
        let ghost prev = out@;
        assert(l.take(i + 1).drop_last() =~= l.take(i as int));
        assert(l[i as int] == pair_view(list@[i as int]));
        match &list[i] {
            Some((k, v)) => {
                out.push((k.clone(), v.clone()));
                assert(out@.map_values(|p: (String, String)| (p.0@, p.1@)) =~= prev.map_values(|p: (String, String)| (p.0@, p.1@)).push((k@, v@)));
            },
            None => {},
        }
        i = i + 1;
    }
    assert(l.take(i as int) =~= l);
    out
}

/// The part of a qualified name after its first `:`, or the whole name.
pub open spec fn local_part(name: Seq<char>) -> Seq<char>
    decreases name.len(),
{
    if name.len() == 0 {
        name
    } else if name[0] == ':' {
        name.drop_first()
    } else {
        local_part(name.drop_first())
    }
}

/// `QName::local_name`: the part of a qualified name after its first `:`.
pub open spec fn local_name(name: Seq<char>) -> Seq<char> {
    if name.contains(':') { local_part(name) } else { name }
}

} // verus!

verus! {

proof fn lemma_local_part(name: Seq<char>, k: int)
    requires
        0 <= k < name.len(),
        name[k] == ':',
        forall|j: int| 0 <= j < k ==> name[j] != ':',
    ensures
        local_part(name) == name.subrange(k + 1, name.len() as int),
    decreases k,
{
    if k > 0 {
        lemma_local_part(name.drop_first(), k - 1);
        assert(name.drop_first().subrange(k, name.len() - 1) =~= name.subrange(k + 1, name.len() as int));
    } else {
        assert(name.drop_first() =~= name.subrange(1, name.len() as int));
    }
}

/// `QName::local_name`, as text.
pub fn local_name_of(name: &str) -> (r: String)
    ensures
        r@ == local_name(name@),
{
    let v = crate::text::chars_of(name);
    let mut k: usize = 0;
    while k < v.len() && v[k] != ':'
        invariant
            v@ == name@,
            k <= v@.len(),
            forall|j: int| 0 <= j < k ==> name@[j] != ':',
        decreases v.len() - k,
    {
        k = k + 1;
    }
    let mut out = String::new();
    if k == v.len() {
        assert(!name@.contains(':')) by {
            if name@.contains(':') {
                let j = choose|j: int| 0 <= j < name@.len() && name@[j] == ':';
                assert(name@[j] != ':');
            }
        }
        let mut i: usize = 0;
        while i < v.len()
            invariant
                v@ == name@,
                i <= v@.len(),
                out@ == name@.take(i as int),
            decreases v.len() - i,
        {
            crate::text::push_char(&mut out, v[i]);
            assert(name@.take(i + 1) =~= name@.take(i as int).push(name@[i as int]));
            i = i + 1;
        }
        assert(name@.take(i as int) =~= name@);
        out
    } else {
        proof {
            lemma_local_part(name@, k as int);
            assert(name@.contains(':'));
        }
        let mut i: usize = k + 1;
        while i < v.len()
            invariant
                v@ == name@,
                k < i <= v@.len(),
                out@ == name@.subrange(k + 1, i as int),
            decreases v.len() - i,
        {
            crate::text::push_char(&mut out, v[i]);
            assert(name@.subrange(k + 1, i + 1) =~= name@.subrange(k + 1, i as int).push(name@[i as int]));
            i = i + 1;
        }
        out
    }
}

/// The value of the first attribute whose key is `key`.
pub open spec fn attribute_value(l: Seq<(Seq<char>, Seq<char>)>, key: Seq<char>) -> Option<Seq<char>>
    decreases l.len(),
{
    if l.len() == 0 {
        None
    } else if l[0].0 == key {
        Some(l[0].1)
    } else {
        attribute_value(l.drop_first(), key)
    }
}

/// The raw value of the first well-formed attribute of a tag whose key is `key`.
pub fn find_attribute(attrs: &str, key: &str) -> (r: Option<String>)
    ensures
        opt_string_view(r) == attribute_value(wellformed_attributes(xml_attribute_list(attrs@)), key@),
{
    let list = tag_attributes(attrs);
    let ghost l = wellformed_attributes(xml_attribute_list(attrs@));
    let mut i: usize = 0;
    assert(l.skip(0) =~= l);
    while i < list.len()
        invariant
            i <= list@.len(),
            l == wellformed_attributes(xml_attribute_list(attrs@)),
            list@.map_values(|p: (String, String)| (p.0@, p.1@)) == l,
            attribute_value(l, key@) == attribute_value(l.skip(i as int), key@),
        decreases list.len() - i,
    {
        assert(l.skip(i as int)[0] == l[i as int]);
        assert(l.skip(i as int).drop_first() =~= l.skip(i + 1));
        assert(l[i as int] == (list@[i as int].0@, list@[i as int].1@));
        if crate::text::str_eq(list[i].0.as_str(), key) {
            return Some(list[i].1.clone());
        }
        i = i + 1;
    }
    None
}


/// An attribute's normalised value, or its raw value where normalisation fails.
pub open spec fn value_or_raw(raw: Seq<char>) -> Seq<char> {
    match xml_normalized_value(raw) {
        Some(v) => v,
        None => raw,
    }
}

/// An attribute's normalised value, or its raw value where normalisation fails.
pub fn normalized_or_raw(key: &str, value: &str) -> (r: String)
    ensures
        r@ == value_or_raw(value@),
{
    match normalized_value(key, value) {
        Some(v) => v,
        None => value.to_owned(),
    }
}

} // verus!
