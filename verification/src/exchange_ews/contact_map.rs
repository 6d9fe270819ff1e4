//! EWS contacts as JSContact cards.
use vstd::prelude::*;
use vstd::utf8::encode_utf8;
use crate::exchange_ews::calendar_map::{
    after_char, before_char, blake3_hex, blake3_hex_of, keyword_entries, keyword_object, opt_member, split_once, Members,
};
use crate::exchange_ews::parse::{
    addresses_view, pairs_view, strings_view, AddressV, ContactItemRaw, ContactV, RawContactAddress,
};
use crate::json::{
    entries_view, items_view, jstr, json_string, object_put, push_item, push_member, put_member, single,
    single_member, typed_pair, typed_string_pair, JsonV, JsonValue,
};
use crate::text::{contains_seq, decimal, decimal_string, lower_seq, parse_unsigned, str_contains, str_eq, to_lower, unsigned_value};
use crate::xml_stream::opt_string_view;

verus! {

/// A stable uid for an item without one, from the digest of its id.
pub open spec fn synthetic_uid_of(item_id: Seq<char>) -> Seq<char> {
    "vandelay-ews-syn-"@ + blake3_hex_of(encode_utf8(item_id))
}

/// A stable uid for an item without one: the same id always gives the same
/// uid.
pub fn synthetic_uid(item_id: &str) -> (r: String)
    ensures
        r@ == synthetic_uid_of(item_id@),
{
    let h = blake3_hex(item_id.as_bytes());
    let mut u = "vandelay-ews-syn-".to_owned();
    u.append(h.as_str());
    u
}

/// `s` begins with `p`.
pub open spec fn starts_with(s: Seq<char>, p: Seq<char>) -> bool {
    p.len() <= s.len() && s.take(p.len() as int) == p
}

fn str_starts_with(s: &str, p: &str) -> (r: bool)
    ensures
        r == starts_with(s@, p@),
{
    let sv = crate::text::chars_of(s);
    let pv = crate::text::chars_of(p);
    if pv.len() > sv.len() {
        return false;
    }
    let mut i: usize = 0;
    while i < pv.len()
        invariant
            sv@ == s@,
            pv@ == p@,
            pv@.len() <= sv@.len(),
            i <= pv@.len(),
            forall|j: int| 0 <= j < i ==> sv@[j] == pv@[j],
        decreases pv.len() - i,
    {
        if sv[i] != pv[i] {
            assert(s@.take(p@.len() as int)[i as int] != p@[i as int]);
            return false;
        }
        i += 1;
    }
    assert(s@.take(p@.len() as int) =~= p@);
    true
}

/// A typed object with a `kind` and a `value`.
pub open spec fn kind_value(kind_type: Seq<char>, kind: Seq<char>, value: Seq<char>) -> JsonV {
    JsonV::Object(seq![("@type"@, jstr(kind_type)), ("kind"@, jstr(kind)), ("value"@, jstr(value))])
}

fn kind_value_json(kind_type: &str, kind: &str, value: &str) -> (r: JsonValue)
    ensures
        r@ == kind_value(kind_type@, kind@, value@),
{
    let mut o: Vec<(String, JsonValue)> = Vec::new();
    push_member(&mut o, "@type", json_string(kind_type));
    push_member(&mut o, "kind", json_string(kind));
    push_member(&mut o, "value", json_string(value));
    assert(entries_view(o@) =~= seq![("@type"@, jstr(kind_type@)), ("kind"@, jstr(kind@)), ("value"@, jstr(value@))]) by {
        reveal_with_fuel(entries_view, 4);
    }
    JsonValue::Object(o)
}

/// A component where the value is present.
pub open spec fn opt_component(kind_type: Seq<char>, kind: Seq<char>, v: Option<Seq<char>>) -> Seq<JsonV> {
    match v {
        Some(x) => seq![kind_value(kind_type, kind, x)],
        None => Seq::empty(),
    }
}

fn add_component(out: &mut Vec<JsonValue>, kind_type: &str, kind: &str, v: &Option<String>)
    ensures
        items_view(final(out)@) == items_view(old(out)@) + opt_component(kind_type@, kind@, opt_string_view(*v)),
{
    let ghost before = items_view(out@);
    match v {
        Some(x) => {
            push_item(out, kind_value_json(kind_type, kind, x.as_str()));
        },
        None => {},
    }
    assert(items_view(out@) =~= before + opt_component(kind_type@, kind@, opt_string_view(*v)));
}

/// Given, middle, family name and generation, as present.
pub open spec fn name_parts(raw: ContactV) -> Seq<JsonV> {
    opt_component("NameComponent"@, "given"@, raw.given_name) + opt_component("NameComponent"@, "given2"@, raw.middle_name)
        + opt_component("NameComponent"@, "surname"@, raw.surname) + opt_component(
        "NameComponent"@,
        "generation"@,
        raw.generation,
    )
}

pub open spec fn name_members(raw: ContactV) -> Members {
    match raw.display_name {
        Some(full) => seq![
            ("name"@, JsonV::Object(seq![("@type"@, jstr("Name"@)), ("full"@, jstr(full))] + if name_parts(raw).len() > 0 {
                seq![("components"@, JsonV::Array(name_parts(raw)))]
            } else {
                Seq::empty()
            })),
        ],
        None => Seq::empty(),
    }
}

/// A singleton object numbered "1" holding `{"@type": kind, key: value}`.
pub open spec fn numbered_one(member: Seq<char>, kind: Seq<char>, key: Seq<char>, v: Option<Seq<char>>) -> Members {
    match v {
        Some(x) => seq![(member, single("1"@, typed_pair(kind, key, x)))],
        None => Seq::empty(),
    }
}

/// Department and office, as units of the organization.
pub open spec fn org_units(raw: ContactV) -> Seq<JsonV> {
    (match raw.department {
        Some(d) => seq![typed_pair("OrgUnit"@, "name"@, d)],
        None => Seq::empty(),
    }) + match raw.office_location {
        Some(o) => seq![typed_pair("OrgUnit"@, "name"@, o)],
        None => Seq::empty(),
    }
}

/// The companies other than the contact's own company name.
pub open spec fn other_companies(cs: Seq<Seq<char>>, own: Option<Seq<char>>) -> Seq<Seq<char>>
    decreases cs.len(),
{
    if cs.len() == 0 {
        Seq::empty()
    } else {
        let rest = other_companies(cs.drop_last(), own);
        if own == Some(cs.last()) { rest } else { rest.push(cs.last()) }
    }
}

/// Organizations numbered from `first`.
pub open spec fn org_entries(names: Seq<Seq<char>>, first: nat) -> Members
    decreases names.len(),
{
    if names.len() == 0 {
        Seq::empty()
    } else {
        org_entries(names.drop_last(), first).push(
            (decimal((first + names.len() - 1) as nat), typed_pair("Organization"@, "name"@, names.last())),
        )
    }
}

/// The contact's organization (with its units) as "1", then its other
/// companies from "2" on.
pub open spec fn organization_entries(raw: ContactV) -> Members {
    let inner = seq![("@type"@, jstr("Organization"@))] + opt_member("name"@, raw.company_name) + if org_units(
        raw,
    ).len() > 0 {
        seq![("units"@, JsonV::Array(org_units(raw)))]
    } else {
        Seq::empty()
    };
    let have = raw.company_name is Some || org_units(raw).len() > 0;
    (if have { seq![("1"@, JsonV::Object(inner))] } else { Seq::empty() }) + org_entries(
        other_companies(raw.companies, raw.company_name),
        2,
    )
}

pub open spec fn organization_members(raw: ContactV) -> Members {
    if organization_entries(raw).len() > 0 {
        seq![("organizations"@, JsonV::Object(organization_entries(raw)))]
    } else {
        Seq::empty()
    }
}

/// Work for a key naming business or work, private for one naming home.
pub open spec fn email_context(key: Seq<char>) -> JsonV {
    let l = lower_seq(key);
    if contains_seq(l, "business"@) || contains_seq(l, "work"@) {
        single("work"@, JsonV::Bool(true))
    } else if contains_seq(l, "home"@) {
        single("private"@, JsonV::Bool(true))
    } else {
        JsonV::Object(Seq::empty())
    }
}

/// Work for a key that starts with business or company, private for one
/// that starts with home or mobile.
pub open spec fn phone_context(key: Seq<char>) -> JsonV {
    let l = lower_seq(key);
    if starts_with(l, "business"@) || starts_with(l, "company"@) {
        single("work"@, JsonV::Bool(true))
    } else if starts_with(l, "home"@) || starts_with(l, "mobile"@) {
        single("private"@, JsonV::Bool(true))
    } else {
        JsonV::Object(Seq::empty())
    }
}

/// Mobile, fax, pager or (otherwise) voice.
pub open spec fn phone_feature(key: Seq<char>) -> JsonV {
    let l = lower_seq(key);
    if contains_seq(l, "mobile"@) {
        single("mobile"@, JsonV::Bool(true))
    } else if contains_seq(l, "fax"@) {
        single("fax"@, JsonV::Bool(true))
    } else if contains_seq(l, "pager"@) {
        single("pager"@, JsonV::Bool(true))
    } else {
        single("voice"@, JsonV::Bool(true))
    }
}

pub open spec fn email_json(key: Seq<char>, addr: Seq<char>) -> JsonV {
    JsonV::Object(seq![("@type"@, jstr("EmailAddress"@)), ("address"@, jstr(addr)), ("contexts"@, email_context(key))])
}

pub open spec fn phone_json(key: Seq<char>, num: Seq<char>) -> JsonV {
    JsonV::Object(seq![
        ("@type"@, jstr("Phone"@)),
        ("number"@, jstr(num)),
        ("contexts"@, phone_context(key)),
        ("features"@, phone_feature(key)),
    ])
}

/// The text with every leading copy of `p` removed (`trim_start_matches`).
pub open spec fn trim_leading(s: Seq<char>, p: Seq<char>) -> Seq<char>
    decreases s.len(),
{
    if p.len() > 0 && starts_with(s, p) {
        trim_leading(s.skip(p.len() as int), p)
    } else {
        s
    }
}

/// The characters that are not ASCII digits.
pub open spec fn without_digits(s: Seq<char>) -> Seq<char>
    decreases s.len(),
{
    if s.len() == 0 {
        s
    } else if '0' <= s.last() && s.last() <= '9' {
        without_digits(s.drop_last())
    } else {
        without_digits(s.drop_last()).push(s.last())
    }
}

/// The service an IM key names: the key without digits and without leading
/// `ImAddress`; none when nothing is left.
pub open spec fn im_service_of(key: Seq<char>) -> Option<Seq<char>> {
    let c = trim_leading(without_digits(key), "ImAddress"@);
    if c.len() == 0 { None } else { Some(c) }
}

pub open spec fn im_json(key: Seq<char>, user: Seq<char>) -> JsonV {
    JsonV::Object(seq![("@type"@, jstr("OnlineService"@)), ("user"@, jstr(user))] + opt_member("service"@, im_service_of(key)))
}

/// The kinds of keyed lists a contact has.
#[derive(Debug, Clone, Copy, PartialEq, Eq, Structural)]
pub enum PairKind {
    Email,
    Phone,
    Im,
}

pub open spec fn pair_json(kind: PairKind, key: Seq<char>, value: Seq<char>) -> JsonV {
    match kind {
        PairKind::Email => email_json(key, value),
        PairKind::Phone => phone_json(key, value),
        PairKind::Im => im_json(key, value),
    }
}

/// Entries numbered from 1, one for each key and value.
pub open spec fn numbered_pairs(list: Seq<(Seq<char>, Seq<char>)>, kind: PairKind) -> Members
    decreases list.len(),
{
    if list.len() == 0 {
        Seq::empty()
    } else {
        numbered_pairs(list.drop_last(), kind).push((decimal(list.len() as nat), pair_json(kind, list.last().0, list.last().1)))
    }
}

pub open spec fn numbered_members(member: Seq<char>, list: Seq<(Seq<char>, Seq<char>)>, kind: PairKind) -> Members {
    if list.len() > 0 { seq![(member, JsonV::Object(numbered_pairs(list, kind)))] } else { Seq::empty() }
}

/// The parts of an address, as present.
pub open spec fn address_parts(a: AddressV) -> Seq<JsonV> {
    opt_component("AddressComponent"@, "name"@, a.street) + opt_component("AddressComponent"@, "locality"@, a.city)
        + opt_component("AddressComponent"@, "region"@, a.state) + opt_component(
        "AddressComponent"@,
        "postcode"@,
        a.postal_code,
    ) + opt_component("AddressComponent"@, "country"@, a.country)
}

/// Work for a business or work address, private for a home one.
pub open spec fn address_context(key: Seq<char>) -> Members {
    let l = lower_seq(key);
    if l == "business"@ || l == "work"@ {
        seq![("work"@, JsonV::Bool(true))]
    } else if l == "home"@ {
        seq![("private"@, JsonV::Bool(true))]
    } else {
        Seq::empty()
    }
}

pub open spec fn address_json(a: AddressV, pref: bool) -> JsonV {
    JsonV::Object(seq![("@type"@, jstr("Address"@))] + (if address_parts(a).len() > 0 {
        seq![("components"@, JsonV::Array(address_parts(a)))]
    } else {
        Seq::empty()
    }) + (if address_context(a.key).len() > 0 {
        seq![("contexts"@, JsonV::Object(address_context(a.key)))]
    } else {
        Seq::empty()
    }) + if pref {
        seq![("pref"@, JsonV::Number(1))]
    } else {
        Seq::empty()
    })
}

/// Whether an address is the one the postal address index names.
pub open spec fn is_preferred(index: Option<Seq<char>>, a: AddressV) -> bool {
    match index {
        Some(p) => lower_seq(p).len() > 0 && lower_seq(p) == lower_seq(a.key),
        None => false,
    }
}

pub open spec fn address_entries(list: Seq<AddressV>, index: Option<Seq<char>>) -> Members
    decreases list.len(),
{
    if list.len() == 0 {
        Seq::empty()
    } else {
        address_entries(list.drop_last(), index).push(
            (decimal(list.len() as nat), address_json(list.last(), is_preferred(index, list.last()))),
        )
    }
}

pub open spec fn address_members(raw: ContactV) -> Members {
    if raw.addresses.len() > 0 {
        seq![("addresses"@, JsonV::Object(address_entries(raw.addresses, raw.postal_address_index)))]
    } else {
        Seq::empty()
    }
}

/// The year, month and day of a date: the text before `T`, split at the
/// first two dashes, each part a `u32`.
pub open spec fn date_parts(s: Seq<char>) -> Option<(nat, nat, nat)> {
    let head = before_char(s, 'T');
    let y = unsigned_value(before_char(head, '-'), 0xffff_ffff);
    match after_char(head, '-') {
        None => None,
        Some(r1) => {
            let m = unsigned_value(before_char(r1, '-'), 0xffff_ffff);
            match after_char(r1, '-') {
                None => None,
                Some(r2) => {
                    let d = unsigned_value(r2, 0xffff_ffff);
                    if y is Some && m is Some && d is Some {
                        Some((y->Some_0, m->Some_0, d->Some_0))
                    } else {
                        None
                    }
                },
            }
        },
    }
}

/// A partial date; a year of 0 is left out.
pub open spec fn partial_date_of(s: Seq<char>) -> Option<JsonV> {
    match date_parts(s) {
        Some((y, m, d)) => Some(JsonV::Object(seq![("@type"@, jstr("PartialDate"@))] + (if y > 0 {
            seq![("year"@, JsonV::Number(y as int))]
        } else {
            Seq::empty()
        }) + seq![("month"@, JsonV::Number(m as int)), ("day"@, JsonV::Number(d as int))])),
        None => None,
    }
}

pub open spec fn anniversary_json(kind: Seq<char>, date: JsonV) -> JsonV {
    JsonV::Object(seq![("@type"@, jstr("Anniversary"@)), ("kind"@, jstr(kind)), ("date"@, date)])
}

pub open spec fn opt_anniversary(kind: Seq<char>, v: Option<Seq<char>>) -> Members {
    match v {
        Some(s) => match partial_date_of(s) {
            Some(d) => seq![(kind, anniversary_json(kind, d))],
            None => Seq::empty(),
        },
        None => Seq::empty(),
    }
}

/// Birthday and wedding anniversary, where their dates parse.
pub open spec fn anniversary_members(raw: ContactV) -> Members {
    let a = opt_anniversary("birth"@, raw.birthday) + opt_anniversary("wedding"@, raw.wedding_anniversary);
    if a.len() > 0 { seq![("anniversaries"@, JsonV::Object(a))] } else { Seq::empty() }
}

pub open spec fn contact_keyword_members(raw: ContactV) -> Members {
    if raw.categories.len() > 0 {
        seq![("keywords"@, JsonV::Object(keyword_entries(raw.categories)))]
    } else {
        Seq::empty()
    }
}

pub open spec fn relation_json(kind: Seq<char>) -> JsonV {
    JsonV::Object(seq![("@type"@, jstr("Relation"@)), ("relation"@, single(kind, JsonV::Bool(true)))])
}

pub open spec fn put_relation(e: Members, who: Option<Seq<char>>, kind: Seq<char>) -> Members {
    match who {
        Some(w) => object_put(e, w, relation_json(kind)),
        None => e,
    }
}

pub open spec fn child_relations(e: Members, children: Seq<Seq<char>>) -> Members
    decreases children.len(),
{
    if children.len() == 0 {
        e
    } else {
        object_put(child_relations(e, children.drop_last()), children.last(), relation_json("child"@))
    }
}

/// Spouse, children, manager and assistant, keyed by name; a later relation
/// of the same name replaces an earlier one.
pub open spec fn related_entries(raw: ContactV) -> Members {
    let e = put_relation(Seq::empty(), raw.spouse, "spouse"@);
    let e = child_relations(e, raw.children);
    let e = put_relation(e, raw.manager, "x-manager"@);
    put_relation(e, raw.assistant, "x-assistant"@)
}

pub open spec fn related_members(raw: ContactV) -> Members {
    if related_entries(raw).len() > 0 {
        seq![("relatedTo"@, JsonV::Object(related_entries(raw)))]
    } else {
        Seq::empty()
    }
}

/// The JSContact card of a contact.
pub open spec fn card_json(raw: ContactV) -> JsonV {
    JsonV::Object(seq![("@type"@, jstr("Card"@)), ("version"@, jstr("1.0"@))] + name_members(raw)
        + numbered_one("nicknames"@, "Nickname"@, "name"@, raw.nickname) + organization_members(raw)
        + numbered_one("titles"@, "Title"@, "name"@, raw.job_title) + numbered_members(
        "emails"@,
        raw.emails,
        PairKind::Email,
    ) + numbered_members("phones"@, raw.phones, PairKind::Phone) + numbered_members(
        "onlineServices"@,
        raw.ims,
        PairKind::Im,
    ) + address_members(raw) + numbered_one("links"@, "Link"@, "uri"@, raw.url) + anniversary_members(raw)
        + contact_keyword_members(raw) + numbered_one("notes"@, "Note"@, "note"@, raw.notes) + related_members(raw))
}


fn name_components(raw: &ContactItemRaw) -> (r: Vec<JsonValue>)
    ensures
        items_view(r@) == name_parts(raw@),
{
    let mut out: Vec<JsonValue> = Vec::new();
    assert(items_view(out@) =~= Seq::<JsonV>::empty());
    add_component(&mut out, "NameComponent", "given", &raw.given_name);
    add_component(&mut out, "NameComponent", "given2", &raw.middle_name);
    add_component(&mut out, "NameComponent", "surname", &raw.surname);
    add_component(&mut out, "NameComponent", "generation", &raw.generation);
    assert(items_view(out@) =~= name_parts(raw@));
    out
}

fn add_name(card: &mut Vec<(String, JsonValue)>, raw: &ContactItemRaw)
    ensures
        entries_view(final(card)@) == entries_view(old(card)@) + name_members(raw@),
{
    let ghost before = entries_view(card@);
    match &raw.display_name {
        Some(full) => {
            let mut name: Vec<(String, JsonValue)> = Vec::new();
            push_member(&mut name, "@type", json_string("Name"));
            push_member(&mut name, "full", json_string(full.as_str()));
            let ghost head = entries_view(name@);
            assert(head =~= seq![("@type"@, jstr("Name"@)), ("full"@, jstr(full@))]) by {
                reveal_with_fuel(entries_view, 3);
            }
            let components = name_components(raw);
            proof { crate::json::lemma_items_len(components@); }
            let ghost cv = items_view(components@);
            if components.len() > 0 {
                push_member(&mut name, "components", JsonValue::Array(components));
            }
            assert(entries_view(name@) =~= head + if name_parts(raw@).len() > 0 {
                seq![("components"@, JsonV::Array(name_parts(raw@)))]
            } else {
                Seq::<(Seq<char>, JsonV)>::empty()
            });
            push_member(card, "name", JsonValue::Object(name));
        },
        None => {},
    }
    assert(entries_view(card@) =~= before + name_members(raw@));
}

fn add_numbered_one(card: &mut Vec<(String, JsonValue)>, member: &str, kind: &str, key: &str, v: &Option<String>)
    ensures
        entries_view(final(card)@) == entries_view(old(card)@) + numbered_one(member@, kind@, key@, opt_string_view(*v)),
{
    let ghost before = entries_view(card@);
    match v {
        Some(x) => {
            push_member(card, member, single_member("1", typed_string_pair(kind, key, x.as_str())));
        },
        None => {},
    }
    assert(entries_view(card@) =~= before + numbered_one(member@, kind@, key@, opt_string_view(*v)));
}

fn add_organizations(card: &mut Vec<(String, JsonValue)>, raw: &ContactItemRaw)
    requires
        2 + other_companies(raw@.companies, raw@.company_name).len() <= u32::MAX,
    ensures
        entries_view(final(card)@) == entries_view(old(card)@) + organization_members(raw@),
{
    let ghost before = entries_view(card@);
    let mut organizations: Vec<(String, JsonValue)> = Vec::new();
    let mut inner: Vec<(String, JsonValue)> = Vec::new();
    push_member(&mut inner, "@type", json_string("Organization"));
    assert(entries_view(inner@) =~= seq![("@type"@, jstr("Organization"@))]) by {
        reveal_with_fuel(entries_view, 2);
    }
    let ghost i0 = entries_view(inner@);
    let mut have_org = false;
    match &raw.company_name {
        Some(co) => {
            push_member(&mut inner, "name", json_string(co.as_str()));
            have_org = true;
        },
        None => {},
    }
    assert(entries_view(inner@) =~= i0 + opt_member("name"@, raw@.company_name));
    let mut units: Vec<JsonValue> = Vec::new();
    match &raw.department {
        Some(d) => {
            push_item(&mut units, typed_string_pair("OrgUnit", "name", d.as_str()));
        },
        None => {},
    }
    match &raw.office_location {
        Some(o) => {
            push_item(&mut units, typed_string_pair("OrgUnit", "name", o.as_str()));
        },
        None => {},
    }
    assert(items_view(units@) =~= org_units(raw@)) by {
        reveal_with_fuel(items_view, 3);
    }
    proof { crate::json::lemma_items_len(units@); }
    let ghost i1 = entries_view(inner@);
    if units.len() > 0 {
        push_member(&mut inner, "units", JsonValue::Array(units));
        have_org = true;
    }
    let ghost inner_v = entries_view(inner@);
    assert(inner_v =~= seq![("@type"@, jstr("Organization"@))] + opt_member("name"@, raw@.company_name) + if org_units(
        raw@,
    ).len() > 0 {
        seq![("units"@, JsonV::Array(org_units(raw@)))]
    } else {
        Seq::<(Seq<char>, JsonV)>::empty()
    });
    if have_org {
        push_member(&mut organizations, "1", JsonValue::Object(inner));
    }
    let ghost first_part = entries_view(organizations@);
    assert(first_part =~= (if raw@.company_name is Some || org_units(raw@).len() > 0 {
        seq![("1"@, JsonV::Object(inner_v))]
    } else {
        Seq::<(Seq<char>, JsonV)>::empty()
    })) by {
        reveal_with_fuel(entries_view, 2);
    }
    let ghost cs = strings_view(raw.companies@);
    let ghost own = opt_string_view(raw.company_name);
    let mut next_org_idx: u32 = 2;
    let mut i: usize = 0;
    assert(cs.take(0) =~= Seq::<Seq<char>>::empty());
    while i < raw.companies.len()
        invariant
            cs == strings_view(raw.companies@),
            own == opt_string_view(raw.company_name),
            cs.len() == raw.companies@.len(),
            i <= raw.companies@.len(),
            2 + other_companies(cs, own).len() <= u32::MAX,
            next_org_idx == 2 + other_companies(cs.take(i as int), own).len(),
            entries_view(organizations@) == first_part + org_entries(other_companies(cs.take(i as int), own), 2),
        decreases raw.companies.len() - i,
    {
        assert(cs.take(i + 1).drop_last() =~= cs.take(i as int));
        assert(cs.take(i + 1).last() == raw.companies@[i as int]@);
        proof { lemma_other_companies_prefix(cs, own, i as int + 1); }
        let extra = &raw.companies[i];
        let same = match &raw.company_name {
            Some(c) => str_eq(c.as_str(), extra.as_str()),
            None => false,
        };
        if !same {
            let key = decimal_string(next_org_idx as u64);
            let ghost prev = other_companies(cs.take(i as int), own);
            put_entry(&mut organizations, key, typed_string_pair("Organization", "name", extra.as_str()));
            next_org_idx += 1;
            assert(other_companies(cs.take(i + 1), own) == prev.push(cs[i as int]));
            assert(prev.push(cs[i as int]).drop_last() =~= prev);
            assert(first_part + org_entries(prev.push(cs[i as int]), 2) =~= (first_part + org_entries(prev, 2)).push(
                (decimal((2 + prev.len()) as nat), typed_pair("Organization"@, "name"@, cs[i as int])),
            ));
        }
        i += 1;
    }
    assert(cs.take(i as int) =~= cs);
    assert(entries_view(organizations@) =~= organization_entries(raw@));
    proof { crate::json::lemma_entries_len(organizations@); }
    if organizations.len() > 0 {
        push_member(card, "organizations", JsonValue::Object(organizations));
    }
    assert(entries_view(card@) =~= before + organization_members(raw@));
}

proof fn lemma_other_companies_prefix(cs: Seq<Seq<char>>, own: Option<Seq<char>>, k: int)
    requires
        0 <= k <= cs.len(),
    ensures
        other_companies(cs.take(k), own).len() <= other_companies(cs, own).len(),
    decreases cs.len() - k,
{
    if k < cs.len() {
        lemma_other_companies_prefix(cs, own, k + 1);
        assert(cs.take(k + 1).drop_last() =~= cs.take(k));
    } else {
        assert(cs.take(k) =~= cs);
    }
}

/// Adds a member at the end.
fn put_entry(o: &mut Vec<(String, JsonValue)>, k: String, x: JsonValue)
    ensures
        entries_view(final(o)@) == entries_view(old(o)@).push((k@, x@)),
{
    proof { crate::json::lemma_entries_push(o@, (k, x)); }
    o.push((k, x));
}

fn flag(k: &str) -> (r: JsonValue)
    ensures
        r@ == single(k@, JsonV::Bool(true)),
{
    single_member(k, JsonValue::Bool(true))
}

fn email_contexts(key: &str) -> (r: JsonValue)
    ensures
        r@ == email_context(key@),
{
    let lower = to_lower(key);
    if str_contains(lower.as_str(), "business") || str_contains(lower.as_str(), "work") {
        flag("work")
    } else if str_contains(lower.as_str(), "home") {
        flag("private")
    } else {
        let o: Vec<(String, JsonValue)> = Vec::new();
        assert(entries_view(o@) =~= Seq::<(Seq<char>, JsonV)>::empty());
        JsonValue::Object(o)
    }
}

fn phone_contexts(key: &str) -> (r: JsonValue)
    ensures
        r@ == phone_context(key@),
{
    let lower = to_lower(key);
    if str_starts_with(lower.as_str(), "business") || str_starts_with(lower.as_str(), "company") {
        flag("work")
    } else if str_starts_with(lower.as_str(), "home") || str_starts_with(lower.as_str(), "mobile") {
        flag("private")
    } else {
        let o: Vec<(String, JsonValue)> = Vec::new();
        assert(entries_view(o@) =~= Seq::<(Seq<char>, JsonV)>::empty());
        JsonValue::Object(o)
    }
}

fn phone_features(key: &str) -> (r: JsonValue)
    ensures
        r@ == phone_feature(key@),
{
    let lower = to_lower(key);
    if str_contains(lower.as_str(), "mobile") {
        flag("mobile")
    } else if str_contains(lower.as_str(), "fax") {
        flag("fax")
    } else if str_contains(lower.as_str(), "pager") {
        flag("pager")
    } else {
        flag("voice")
    }
}

fn strip_digits(key: &str) -> (r: Vec<char>)
    ensures
        r@ == without_digits(key@),
{
    let v = crate::text::chars_of(key);
    let mut out: Vec<char> = Vec::new();
    let mut i: usize = 0;
    assert(key@.take(0) =~= Seq::<char>::empty());
    while i < v.len()
        invariant
            v@ == key@,
            i <= v@.len(),
            out@ == without_digits(key@.take(i as int)),
        decreases v.len() - i,
    {
        let c = v[i];
        assert(key@.take(i + 1).drop_last() =~= key@.take(i as int));
        assert(key@.take(i + 1).last() == c);
        if !('0' <= c && c <= '9') {
            out.push(c);
        }
        i += 1;
    }
    assert(key@.take(i as int) =~= key@);
    out
}

fn im_service_from_key(key: &str) -> (r: Option<String>)
    ensures
        opt_string_view(r) == im_service_of(key@),
{
    let v = strip_digits(key);
    let p = crate::text::chars_of("ImAddress");
    let mut start: usize = 0;
    assert(v@.skip(0) =~= v@);
    loop
        invariant
            v@ == without_digits(key@),
            p@ == "ImAddress"@,
            start <= v@.len(),
            trim_leading(v@.skip(start as int), p@) == trim_leading(v@, p@),
        decreases v@.len() - start,
    {
        let rest = slice_chars(&v, start);
        let s = crate::text::string_from_chars(&rest);
        if p.len() > 0 && str_starts_with(s.as_str(), "ImAddress") && p.len() <= v.len() - start {
            proof {
                assert(v@.skip(start as int).skip(p@.len() as int) =~= v@.skip(start + p@.len()));
            }
            start = start + p.len();
        } else {
            proof {
                if p@.len() > 0 && starts_with(v@.skip(start as int), p@) {
                    assert(start + p@.len() <= v@.len());
                }
            }
            if rest.len() == 0 {
                return None;
            }
            return Some(s);
        }
    }
}

fn slice_chars(v: &Vec<char>, from: usize) -> (r: Vec<char>)
    requires
        from <= v@.len(),
    ensures
        r@ == v@.skip(from as int),
{
    let mut out: Vec<char> = Vec::new();
    let mut i = from;
    while i < v.len()
        invariant
            from <= i <= v@.len(),
            out@ == v@.subrange(from as int, i as int),
        decreases v.len() - i,
    {
        out.push(v[i]);
        assert(v@.subrange(from as int, i + 1) =~= v@.subrange(from as int, i as int).push(v@[i as int]));
        i += 1;
    }
    assert(v@.subrange(from as int, i as int) =~= v@.skip(from as int));
    out
}

fn pair_value(kind: PairKind, key: &str, value: &str) -> (r: JsonValue)
    ensures
        r@ == pair_json(kind, key@, value@),
{
    let mut e: Vec<(String, JsonValue)> = Vec::new();
    match kind {
        PairKind::Email => {
            push_member(&mut e, "@type", json_string("EmailAddress"));
            push_member(&mut e, "address", json_string(value));
            push_member(&mut e, "contexts", email_contexts(key));
            assert(entries_view(e@) =~= seq![
                ("@type"@, jstr("EmailAddress"@)),
                ("address"@, jstr(value@)),
                ("contexts"@, email_context(key@)),
            ]) by {
                reveal_with_fuel(entries_view, 4);
            }
        },
        PairKind::Phone => {
            push_member(&mut e, "@type", json_string("Phone"));
            push_member(&mut e, "number", json_string(value));
            push_member(&mut e, "contexts", phone_contexts(key));
            push_member(&mut e, "features", phone_features(key));
            assert(entries_view(e@) =~= seq![
                ("@type"@, jstr("Phone"@)),
                ("number"@, jstr(value@)),
                ("contexts"@, phone_context(key@)),
                ("features"@, phone_feature(key@)),
            ]) by {
                reveal_with_fuel(entries_view, 5);
            }
        },
        PairKind::Im => {
            push_member(&mut e, "@type", json_string("OnlineService"));
            push_member(&mut e, "user", json_string(value));
            let ghost head = entries_view(e@);
            assert(head =~= seq![("@type"@, jstr("OnlineService"@)), ("user"@, jstr(value@))]) by {
                reveal_with_fuel(entries_view, 3);
            }
            match im_service_from_key(key) {
                Some(service) => {
                    push_member(&mut e, "service", JsonValue::Str(service));
                },
                None => {},
            }
            assert(entries_view(e@) =~= head + opt_member("service"@, im_service_of(key@)));
        },
    }
    JsonValue::Object(e)
}

fn add_pairs(card: &mut Vec<(String, JsonValue)>, member: &str, list: &Vec<(String, String)>, kind: PairKind)
    ensures
        entries_view(final(card)@) == entries_view(old(card)@) + numbered_members(member@, pairs_view(list@), kind),
{
    let ghost before = entries_view(card@);
    let ghost l = pairs_view(list@);
    if list.len() == 0 {
        assert(entries_view(card@) =~= before + numbered_members(member@, l, kind));
        return;
    }
    let mut map: Vec<(String, JsonValue)> = Vec::new();
    let mut i: usize = 0;
    assert(l.take(0) =~= Seq::<(Seq<char>, Seq<char>)>::empty());
    assert(entries_view(map@) =~= Seq::<(Seq<char>, JsonV)>::empty());
    while i < list.len()
        invariant
            l == pairs_view(list@),
            l.len() == list@.len(),
            i <= list@.len(),
            entries_view(map@) == numbered_pairs(l.take(i as int), kind),
        decreases list.len() - i,
    {
        assert(l.take(i + 1).drop_last() =~= l.take(i as int));
        assert(l.take(i + 1).last() == (list@[i as int].0@, list@[i as int].1@));
        let (k, v) = &list[i];
        let entry_id = decimal_string(i as u64 + 1);
        put_entry(&mut map, entry_id, pair_value(kind, k.as_str(), v.as_str()));
        i += 1;
    }
    assert(l.take(i as int) =~= l);
    push_member(card, member, JsonValue::Object(map));
    assert(entries_view(card@) =~= before + numbered_members(member@, l, kind));
}

fn address_to_jscontact(addr: &RawContactAddress, is_pref: bool) -> (r: JsonValue)
    ensures
        r@ == address_json(addr@, is_pref),
{
    let mut o: Vec<(String, JsonValue)> = Vec::new();
    push_member(&mut o, "@type", json_string("Address"));
    let ghost s0 = entries_view(o@);
    assert(s0 =~= seq![("@type"@, jstr("Address"@))]) by {
        reveal_with_fuel(entries_view, 2);
    }
    let mut components: Vec<JsonValue> = Vec::new();
    assert(items_view(components@) =~= Seq::<JsonV>::empty());
    add_component(&mut components, "AddressComponent", "name", &addr.street);
    add_component(&mut components, "AddressComponent", "locality", &addr.city);
    add_component(&mut components, "AddressComponent", "region", &addr.state);
    add_component(&mut components, "AddressComponent", "postcode", &addr.postal_code);
    add_component(&mut components, "AddressComponent", "country", &addr.country);
    assert(items_view(components@) =~= address_parts(addr@));
    proof { crate::json::lemma_items_len(components@); }
    if components.len() > 0 {
        push_member(&mut o, "components", JsonValue::Array(components));
    }
    let ghost s1 = entries_view(o@);
    let mut contexts: Vec<(String, JsonValue)> = Vec::new();
    let lower = to_lower(addr.key.as_str());
    if str_eq(lower.as_str(), "business") || str_eq(lower.as_str(), "work") {
        push_member(&mut contexts, "work", JsonValue::Bool(true));
    } else if str_eq(lower.as_str(), "home") {
        push_member(&mut contexts, "private", JsonValue::Bool(true));
    }
    assert(entries_view(contexts@) =~= address_context(addr@.key)) by {
        reveal_with_fuel(entries_view, 2);
    }
    proof { crate::json::lemma_entries_len(contexts@); }
    if contexts.len() > 0 {
        push_member(&mut o, "contexts", JsonValue::Object(contexts));
    }
    let ghost s2 = entries_view(o@);
    if is_pref {
        push_member(&mut o, "pref", JsonValue::Number(1));
    }
    assert(entries_view(o@) =~= seq![("@type"@, jstr("Address"@))] + (if address_parts(addr@).len() > 0 {
        seq![("components"@, JsonV::Array(address_parts(addr@)))]
    } else {
        Seq::<(Seq<char>, JsonV)>::empty()
    }) + (if address_context(addr@.key).len() > 0 {
        seq![("contexts"@, JsonV::Object(address_context(addr@.key)))]
    } else {
        Seq::<(Seq<char>, JsonV)>::empty()
    }) + if is_pref {
        seq![("pref"@, JsonV::Number(1))]
    } else {
        Seq::<(Seq<char>, JsonV)>::empty()
    });
    JsonValue::Object(o)
}

fn add_addresses(card: &mut Vec<(String, JsonValue)>, raw: &ContactItemRaw)
    ensures
        entries_view(final(card)@) == entries_view(old(card)@) + address_members(raw@),
{
    let ghost before = entries_view(card@);
    let ghost l = addresses_view(raw.addresses@);
    let ghost index = opt_string_view(raw.postal_address_index);
    if raw.addresses.len() == 0 {
        assert(entries_view(card@) =~= before + address_members(raw@));
        return;
    }
    let pref_key: Option<String> = match &raw.postal_address_index {
        Some(p) => Some(to_lower(p.as_str())),
        None => None,
    };
    let mut map: Vec<(String, JsonValue)> = Vec::new();
    let mut i: usize = 0;
    assert(l.take(0) =~= Seq::<AddressV>::empty());
    assert(entries_view(map@) =~= Seq::<(Seq<char>, JsonV)>::empty());
    while i < raw.addresses.len()
        invariant
            l == addresses_view(raw.addresses@),
            l.len() == raw.addresses@.len(),
            index == opt_string_view(raw.postal_address_index),
            opt_string_view(pref_key) == (match index {
                Some(p) => Some(lower_seq(p)),
                None => None,
            }),
            i <= raw.addresses@.len(),
            entries_view(map@) == address_entries(l.take(i as int), index),
        decreases raw.addresses.len() - i,
    {
        assert(l.take(i + 1).drop_last() =~= l.take(i as int));
        assert(l.take(i + 1).last() == raw.addresses@[i as int]@);
        let addr = &raw.addresses[i];
        let is_pref = match &pref_key {
            Some(p) => !p.as_str().is_empty() && str_eq(p.as_str(), to_lower(addr.key.as_str()).as_str()),
            None => false,
        };
        let entry_id = decimal_string(i as u64 + 1);
        put_entry(&mut map, entry_id, address_to_jscontact(addr, is_pref));
        i += 1;
    }
    assert(l.take(i as int) =~= l);
    push_member(card, "addresses", JsonValue::Object(map));
    assert(entries_view(card@) =~= before + address_members(raw@));
}

/// A partial date of a `Y-M-D` date (a year of 0 left out); none where a
/// part does not parse.
fn partial_date(s: &str) -> (r: Option<JsonValue>)
    ensures
        match partial_date_of(s@) {
            Some(v) => r matches Some(x) && x@ == v,
            None => r is None,
        },
{
    let (head, _) = split_once(s, 'T');
    let (p1, r1) = split_once(head.as_str(), '-');
    let year = parse_unsigned(p1.as_str(), 0xffff_ffff);
    let r1 = match r1 {
        Some(r) => r,
        None => {
            return None;
        },
    };
    let (p2, r2) = split_once(r1.as_str(), '-');
    let month = parse_unsigned(p2.as_str(), 0xffff_ffff);
    let r2 = match r2 {
        Some(r) => r,
        None => {
            return None;
        },
    };
    let day = parse_unsigned(r2.as_str(), 0xffff_ffff);
    let (year, month, day) = match (year, month, day) {
        (Some(y), Some(m), Some(d)) => (y, m, d),
        _ => {
            return None;
        },
    };
    let mut o: Vec<(String, JsonValue)> = Vec::new();
    push_member(&mut o, "@type", json_string("PartialDate"));
    let ghost s0 = entries_view(o@);
    assert(s0 =~= seq![("@type"@, jstr("PartialDate"@))]) by {
        reveal_with_fuel(entries_view, 2);
    }
    if year > 0 {
        push_member(&mut o, "year", JsonValue::Number(year as i64));
    }
    let ghost s1 = entries_view(o@);
    push_member(&mut o, "month", JsonValue::Number(month as i64));
    push_member(&mut o, "day", JsonValue::Number(day as i64));
    assert(entries_view(o@) =~= s0 + (if year > 0 {
        seq![("year"@, JsonV::Number(year as int))]
    } else {
        Seq::<(Seq<char>, JsonV)>::empty()
    }) + seq![("month"@, JsonV::Number(month as int)), ("day"@, JsonV::Number(day as int))]);
    Some(JsonValue::Object(o))
}

fn anniversary_value(kind: &str, date: JsonValue) -> (r: JsonValue)
    ensures
        r@ == anniversary_json(kind@, date@),
{
    let ghost dv = date@;
    let mut o: Vec<(String, JsonValue)> = Vec::new();
    push_member(&mut o, "@type", json_string("Anniversary"));
    push_member(&mut o, "kind", json_string(kind));
    push_member(&mut o, "date", date);
    assert(entries_view(o@) =~= seq![("@type"@, jstr("Anniversary"@)), ("kind"@, jstr(kind@)), ("date"@, dv)]) by {
        reveal_with_fuel(entries_view, 4);
    }
    JsonValue::Object(o)
}

fn add_anniversary(m: &mut Vec<(String, JsonValue)>, kind: &str, v: &Option<String>)
    ensures
        entries_view(final(m)@) == entries_view(old(m)@) + opt_anniversary(kind@, opt_string_view(*v)),
{
    let ghost before = entries_view(m@);
    match v {
        Some(x) => match partial_date(x.as_str()) {
            Some(d) => {
                push_member(m, kind, anniversary_value(kind, d));
            },
            None => {},
        },
        None => {},
    }
    assert(entries_view(m@) =~= before + opt_anniversary(kind@, opt_string_view(*v)));
}

fn add_anniversaries(card: &mut Vec<(String, JsonValue)>, raw: &ContactItemRaw)
    ensures
        entries_view(final(card)@) == entries_view(old(card)@) + anniversary_members(raw@),
{
    let ghost before = entries_view(card@);
    let mut a: Vec<(String, JsonValue)> = Vec::new();
    assert(entries_view(a@) =~= Seq::<(Seq<char>, JsonV)>::empty());
    add_anniversary(&mut a, "birth", &raw.birthday);
    add_anniversary(&mut a, "wedding", &raw.wedding_anniversary);
    assert(entries_view(a@) =~= opt_anniversary("birth"@, raw@.birthday) + opt_anniversary("wedding"@, raw@.wedding_anniversary));
    proof { crate::json::lemma_entries_len(a@); }
    if a.len() > 0 {
        push_member(card, "anniversaries", JsonValue::Object(a));
    }
    assert(entries_view(card@) =~= before + anniversary_members(raw@));
}

fn add_contact_keywords(card: &mut Vec<(String, JsonValue)>, raw: &ContactItemRaw)
    ensures
        entries_view(final(card)@) == entries_view(old(card)@) + contact_keyword_members(raw@),
{
    let ghost before = entries_view(card@);
    if raw.categories.len() > 0 {
        let kw = keyword_object(&raw.categories);
        push_member(card, "keywords", JsonValue::Object(kw));
    }
    assert(entries_view(card@) =~= before + contact_keyword_members(raw@));
}

fn relation_value(kind: &str) -> (r: JsonValue)
    ensures
        r@ == relation_json(kind@),
{
    let mut o: Vec<(String, JsonValue)> = Vec::new();
    push_member(&mut o, "@type", json_string("Relation"));
    push_member(&mut o, "relation", single_member(kind, JsonValue::Bool(true)));
    assert(entries_view(o@) =~= seq![("@type"@, jstr("Relation"@)), ("relation"@, single(kind@, JsonV::Bool(true)))]) by {
        reveal_with_fuel(entries_view, 3);
    }
    JsonValue::Object(o)
}

fn put_relation_of(m: &mut Vec<(String, JsonValue)>, who: &Option<String>, kind: &str)
    ensures
        entries_view(final(m)@) == put_relation(entries_view(old(m)@), opt_string_view(*who), kind@),
{
    match who {
        Some(w) => {
            put_member(m, w.clone(), relation_value(kind));
        },
        None => {},
    }
}

fn add_related(card: &mut Vec<(String, JsonValue)>, raw: &ContactItemRaw)
    ensures
        entries_view(final(card)@) == entries_view(old(card)@) + related_members(raw@),
{
    let ghost before = entries_view(card@);
    let mut related: Vec<(String, JsonValue)> = Vec::new();
    assert(entries_view(related@) =~= Seq::<(Seq<char>, JsonV)>::empty());
    put_relation_of(&mut related, &raw.spouse, "spouse");
    let ghost e1 = entries_view(related@);
    let ghost cs = strings_view(raw.children@);
    let mut i: usize = 0;
    assert(cs.take(0) =~= Seq::<Seq<char>>::empty());
    while i < raw.children.len()
        invariant
            cs == strings_view(raw.children@),
            cs.len() == raw.children@.len(),
            i <= raw.children@.len(),
            entries_view(related@) == child_relations(e1, cs.take(i as int)),
        decreases raw.children.len() - i,
    {
        assert(cs.take(i + 1).drop_last() =~= cs.take(i as int));
        assert(cs.take(i + 1).last() == raw.children@[i as int]@);
        put_member(&mut related, raw.children[i].clone(), relation_value("child"));
        i += 1;
    }
    assert(cs.take(i as int) =~= cs);
    put_relation_of(&mut related, &raw.manager, "x-manager");
    put_relation_of(&mut related, &raw.assistant, "x-assistant");
    assert(entries_view(related@) =~= related_entries(raw@));
    proof { crate::json::lemma_entries_len(related@); }
    if related.len() > 0 {
        push_member(card, "relatedTo", JsonValue::Object(related));
    }
    assert(entries_view(card@) =~= before + related_members(raw@));
}

/// The JSContact card of an EWS contact: name, nicknames, organizations,
/// titles, e-mail addresses, phones, online services, addresses, links,
/// anniversaries, keywords, notes and relations.
pub fn to_jscontact(raw: &ContactItemRaw) -> (r: JsonValue)
    requires
        2 + other_companies(raw@.companies, raw@.company_name).len() <= u32::MAX,
    ensures
        r@ == card_json(raw@),
{
    let mut card: Vec<(String, JsonValue)> = Vec::new();
    push_member(&mut card, "@type", json_string("Card"));
    push_member(&mut card, "version", json_string("1.0"));
    let ghost head = entries_view(card@);
    assert(head =~= seq![("@type"@, jstr("Card"@)), ("version"@, jstr("1.0"@))]) by {
        reveal_with_fuel(entries_view, 3);
    }
    add_name(&mut card, raw);
    add_numbered_one(&mut card, "nicknames", "Nickname", "name", &raw.nickname);
    add_organizations(&mut card, raw);
    add_numbered_one(&mut card, "titles", "Title", "name", &raw.job_title);
    add_pairs(&mut card, "emails", &raw.emails, PairKind::Email);
    add_pairs(&mut card, "phones", &raw.phones, PairKind::Phone);
    add_pairs(&mut card, "onlineServices", &raw.ims, PairKind::Im);
    add_addresses(&mut card, raw);
    add_numbered_one(&mut card, "links", "Link", "uri", &raw.url);
    add_anniversaries(&mut card, raw);
    add_contact_keywords(&mut card, raw);
    add_numbered_one(&mut card, "notes", "Note", "note", &raw.notes);
    add_related(&mut card, raw);
    assert(entries_view(card@) =~= seq![("@type"@, jstr("Card"@)), ("version"@, jstr("1.0"@))] + name_members(raw@)
        + numbered_one("nicknames"@, "Nickname"@, "name"@, raw@.nickname) + organization_members(raw@)
        + numbered_one("titles"@, "Title"@, "name"@, raw@.job_title) + numbered_members(
        "emails"@,
        raw@.emails,
        PairKind::Email,
    ) + numbered_members("phones"@, raw@.phones, PairKind::Phone) + numbered_members(
        "onlineServices"@,
        raw@.ims,
        PairKind::Im,
    ) + address_members(raw@) + numbered_one("links"@, "Link"@, "uri"@, raw@.url) + anniversary_members(raw@)
        + contact_keyword_members(raw@) + numbered_one("notes"@, "Note"@, "note"@, raw@.notes) + related_members(raw@));
    JsonValue::Object(card)
}

/// A synthetic uid is a function of the item id alone and always carries the
/// `vandelay-ews-syn-` prefix.
pub proof fn law_synthetic_uid_prefixed(a: Seq<char>, b: Seq<char>)
    ensures
        a == b ==> synthetic_uid_of(a) == synthetic_uid_of(b),
        starts_with(synthetic_uid_of(a), "vandelay-ews-syn-"@),
{
    let p = "vandelay-ews-syn-"@;
    assert((p + blake3_hex_of(encode_utf8(a))).take(p.len() as int) =~= p);
}

proof fn lemma_first_char_of_prefix(s: Seq<char>, p: Seq<char>)
    requires
        starts_with(s, p),
        p.len() > 0,
    ensures
        s[0] == p[0],
{
    assert(s.take(p.len() as int)[0] == p[0]);
}

/// A phone whose key starts, in any case, with home or mobile is private and
/// never work; one whose key starts with business or company is work; and a
/// phone is work only under such a key.
pub proof fn law_phone_context_by_key(key: Seq<char>, num: Seq<char>)
    ensures
        phone_json(key, num) matches JsonV::Object(m) && m.len() == 4 && m[2].0 == "contexts"@ && {
            let l = lower_seq(key);
            let c = m[2].1;
            &&& (starts_with(l, "home"@) || starts_with(l, "mobile"@)) ==> c == JsonV::Object(
                seq![("private"@, JsonV::Bool(true))],
            )
            &&& (starts_with(l, "business"@) || starts_with(l, "company"@)) ==> c == JsonV::Object(
                seq![("work"@, JsonV::Bool(true))],
            )
            &&& (c matches JsonV::Object(cm) && cm.len() > 0 && cm[0].0 == "work"@) ==> (starts_with(
                l,
                "business"@,
            ) || starts_with(l, "company"@))
        },
{
    reveal_strlit("home");
    reveal_strlit("mobile");
    reveal_strlit("business");
    reveal_strlit("company");
    reveal_strlit("work");
    reveal_strlit("private");
    assert("home"@.len() == 4);
    assert("mobile"@.len() == 6);
    assert("business"@.len() == 8);
    assert("company"@.len() == 7);
    assert("work"@.len() == 4);
    assert("private"@.len() == 7);
    assert("home"@[0] == 'h');
    assert("mobile"@[0] == 'm');
    assert("business"@[0] == 'b');
    assert("company"@[0] == 'c');
    let l = lower_seq(key);
    if starts_with(l, "home"@) {
        lemma_first_char_of_prefix(l, "home"@);
        if starts_with(l, "business"@) {
            lemma_first_char_of_prefix(l, "business"@);
        }
        if starts_with(l, "company"@) {
            lemma_first_char_of_prefix(l, "company"@);
        }
    }
    if starts_with(l, "mobile"@) {
        lemma_first_char_of_prefix(l, "mobile"@);
        if starts_with(l, "business"@) {
            lemma_first_char_of_prefix(l, "business"@);
        }
        if starts_with(l, "company"@) {
            lemma_first_char_of_prefix(l, "company"@);
        }
    }
}

/// An e-mail address whose key names business or work (in any case, anywhere
/// in the key) is work; otherwise one whose key names home is private;
/// otherwise it has no context.
pub proof fn law_email_context_by_key(key: Seq<char>, addr: Seq<char>)
    ensures
        email_json(key, addr) matches JsonV::Object(m) && m.len() == 3 && m[1] == ("address"@, JsonV::Str(addr))
            && m[2].0 == "contexts"@ && {
            let l = lower_seq(key);
            let c = m[2].1;
            let work = contains_seq(l, "business"@) || contains_seq(l, "work"@);
            &&& work ==> c == JsonV::Object(seq![("work"@, JsonV::Bool(true))])
            &&& (!work && contains_seq(l, "home"@)) ==> c == JsonV::Object(seq![("private"@, JsonV::Bool(true))])
            &&& (!work && !contains_seq(l, "home"@)) ==> c == JsonV::Object(Seq::empty())
        },
{
}

/// A phone whose key names mobile (in any case, anywhere in the key) has the
/// mobile feature; otherwise fax or pager where the key names one; otherwise
/// voice.
pub proof fn law_phone_feature_by_key(key: Seq<char>, num: Seq<char>)
    ensures
        phone_json(key, num) matches JsonV::Object(m) && m.len() == 4 && m[1] == ("number"@, JsonV::Str(num))
            && m[3].0 == "features"@ && {
            let l = lower_seq(key);
            let f = m[3].1;
            &&& contains_seq(l, "mobile"@) ==> f == JsonV::Object(seq![("mobile"@, JsonV::Bool(true))])
            &&& (!contains_seq(l, "mobile"@) && contains_seq(l, "fax"@)) ==> f == JsonV::Object(
                seq![("fax"@, JsonV::Bool(true))],
            )
            &&& (!contains_seq(l, "mobile"@) && !contains_seq(l, "fax"@) && contains_seq(l, "pager"@)) ==> f
                == JsonV::Object(seq![("pager"@, JsonV::Bool(true))])
            &&& (!contains_seq(l, "mobile"@) && !contains_seq(l, "fax"@) && !contains_seq(l, "pager"@)) ==> f
                == JsonV::Object(seq![("voice"@, JsonV::Bool(true))])
        },
{
}

/// Every card is typed `Card`, of version 1.0, and where the contact has a
/// display name, that is the card's full name.
pub proof fn law_card_head(raw: ContactV)
    ensures
        card_json(raw) matches JsonV::Object(m) && {
            &&& m.len() >= 2
            &&& m[0] == ("@type"@, JsonV::Str("Card"@))
            &&& m[1] == ("version"@, JsonV::Str("1.0"@))
            &&& (raw.display_name matches Some(full) ==> m.len() >= 3 && m[2].0 == "name"@ && (m[2].1 matches JsonV::Object(
                n,
            ) && n.len() >= 2 && n[0] == ("@type"@, JsonV::Str("Name"@)) && n[1] == ("full"@, JsonV::Str(full))))
        },
{
    let head: Members = seq![("@type"@, jstr("Card"@)), ("version"@, jstr("1.0"@))];
    let s0 = head + name_members(raw);
    let s1 = s0 + numbered_one("nicknames"@, "Nickname"@, "name"@, raw.nickname);
    let s2 = s1 + organization_members(raw);
    let s3 = s2 + numbered_one("titles"@, "Title"@, "name"@, raw.job_title);
    let s4 = s3 + numbered_members("emails"@, raw.emails, PairKind::Email);
    let s5 = s4 + numbered_members("phones"@, raw.phones, PairKind::Phone);
    let s6 = s5 + numbered_members("onlineServices"@, raw.ims, PairKind::Im);
    let s7 = s6 + address_members(raw);
    let s8 = s7 + numbered_one("links"@, "Link"@, "uri"@, raw.url);
    let s9 = s8 + anniversary_members(raw);
    let s10 = s9 + contact_keyword_members(raw);
    let s11 = s10 + numbered_one("notes"@, "Note"@, "note"@, raw.notes);
    let s12 = s11 + related_members(raw);
    assert(card_json(raw) == JsonV::Object(s12));
    let k: int = if raw.display_name is Some { 3 } else { 2 };
    assert(s0.len() >= k);
    assert forall|i: int| 0 <= i < k implies #[trigger] s12[i] == s0[i] by {
        assert(s1[i] == s0[i]);
        assert(s2[i] == s1[i]);
        assert(s3[i] == s2[i]);
        assert(s4[i] == s3[i]);
        assert(s5[i] == s4[i]);
        assert(s6[i] == s5[i]);
        assert(s7[i] == s6[i]);
        assert(s8[i] == s7[i]);
        assert(s9[i] == s8[i]);
        assert(s10[i] == s9[i]);
        assert(s11[i] == s10[i]);
        assert(s12[i] == s11[i]);
    }
}

/// E-mail addresses, phones and online services are numbered 1, 2, … in the
/// order the contact lists them, one entry for each, built from its own key
/// and value.
pub proof fn law_pairs_numbered_in_order(list: Seq<(Seq<char>, Seq<char>)>, kind: PairKind)
    ensures
        numbered_pairs(list, kind).len() == list.len(),
        forall|j: int| 0 <= j < list.len() ==> #[trigger] numbered_pairs(list, kind)[j] == (
            decimal((j + 1) as nat),
            pair_json(kind, list[j].0, list[j].1),
        ),
    decreases list.len(),
{
    if list.len() > 0 {
        law_pairs_numbered_in_order(list.drop_last(), kind);
        assert forall|j: int| 0 <= j < list.len() implies #[trigger] numbered_pairs(list, kind)[j] == (
            decimal((j + 1) as nat),
            pair_json(kind, list[j].0, list[j].1),
        ) by {
            if j < list.len() - 1 {
                assert(list.drop_last()[j] == list[j]);
            }
        }
    }
}
} // verus!
