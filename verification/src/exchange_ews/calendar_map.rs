//! EWS calendar items as JSCalendar events.
use vstd::prelude::*;
use vstd::utf8::encode_utf8;
use vstd::string::StringSliceAdditionalSpecFns;
use crate::exchange_ews::types::trimmed;
use crate::text::{decimal, decimal_string, parse_i64, parse_unsigned, signed_value, unsigned_value};
use crate::xml_stream::opt_string_view;
use crate::exchange::tz::{windows_to_iana, zone_lookup, zone_table};
use crate::exchange_ews::parse::{
    attendees_view, occurrences_view, strings_view, AttendeeV, CalendarItemRaw, CalendarV, OccurrenceV, RawAttendee,
    RawOccurrence,
};
use crate::exchange_ews::recurrence::{opt_json_view, rule_of, to_jscalendar_rule};
use crate::json::{
    entries_view, items_view, jstr, json_string, object_put, push_item, push_member, put_member, single,
    single_member, typed_pair, typed_string_pair, JsonV, JsonValue,
};
use crate::text::{lower_seq, str_eq, to_lower};

verus! {

// ---------------------------------------------------------------------------
// Text positions

/// The index of the first `c` in `s` at or after `i`.
pub open spec fn first_from(s: Seq<char>, c: char, i: int) -> Option<int>
    decreases s.len() - i,
{
    if i < 0 || i >= s.len() {
        None
    } else if s[i] == c {
        Some(i)
    } else {
        first_from(s, c, i + 1)
    }
}

/// `s` up to its first `c` (`s.split(c).next()`).
pub open spec fn before_char(s: Seq<char>, c: char) -> Seq<char> {
    match first_from(s, c, 0) {
        Some(i) => s.take(i),
        None => s,
    }
}

/// What follows the first `c` in `s`, if there is one.
pub open spec fn after_char(s: Seq<char>, c: char) -> Option<Seq<char>> {
    match first_from(s, c, 0) {
        Some(i) => Some(s.skip(i + 1)),
        None => None,
    }
}

/// The index of the last `+` or `-` among the first `n` characters.
pub open spec fn last_sign(s: Seq<char>, n: int) -> Option<int>
    decreases n,
{
    if n <= 0 || n > s.len() {
        None
    } else if s[n - 1] == '+' || s[n - 1] == '-' {
        Some(n - 1)
    } else {
        last_sign(s, n - 1)
    }
}

/// The position of a zone offset: the last sign, where at least ten bytes
/// precede it.
pub open spec fn offset_at(t: Seq<char>) -> Option<int> {
    match last_sign(t, t.len() as int) {
        Some(p) => if encode_utf8(t.take(p)).len() >= 10 { Some(p) } else { None },
        None => None,
    }
}

/// Whether a time stamp names its zone: a final `Z` or an offset.
pub open spec fn zone_anchored(t: Seq<char>) -> bool {
    (t.len() > 0 && t.last() == 'Z') || offset_at(t) is Some
}

/// The time stamp without its zone.
pub open spec fn without_zone(t: Seq<char>) -> Seq<char> {
    if t.len() > 0 && t.last() == 'Z' {
        t.drop_last()
    } else {
        match offset_at(t) {
            Some(p) => t.take(p),
            None => t,
        }
    }
}

/// `date T time` with the zone and fractional seconds dropped and `suffix`
/// added; a date alone gets midnight.
pub open spec fn wall_text(t: Seq<char>, suffix: Seq<char>) -> Seq<char> {
    let st = without_zone(t);
    match first_from(st, 'T', 0) {
        None => st + "T00:00:00"@ + suffix,
        Some(i) => {
            let time = st.skip(i + 1);
            st.take(i) + "T"@ + before_char(time, '.') + suffix
        },
    }
}

/// A UTC time stamp in the form `YYYY-MM-DDTHH:MM:SSZ`.
pub open spec fn normalised_utc(s: Seq<char>) -> Seq<char> {
    wall_text(trimmed(s), "Z"@)
}

/// The wall-clock time in zone `zone` of an RFC 3339 time stamp, as chrono
/// and chrono-tz compute it (`%Y-%m-%dT%H:%M:%S`); none where either does not
/// parse.
pub uninterp spec fn utc_wall_clock_in(stamp: Seq<char>, zone: Seq<char>) -> Option<Seq<char>>;

/// A time stamp as local wall-clock time: converted into the event's zone
/// where it is anchored and the conversion succeeds, else with its zone
/// dropped.
pub open spec fn local_in(s: Seq<char>, iana: Option<Seq<char>>) -> Seq<char> {
    let t = trimmed(s);
    match iana {
        Some(z) => if zone_anchored(t) && utc_wall_clock_in(t, z) is Some {
            utc_wall_clock_in(t, z)->Some_0
        } else {
            wall_text(t, ""@)
        },
        None => wall_text(t, ""@),
    }
}

fn first_index(v: &Vec<char>, c: char, from: usize) -> (r: Option<usize>)
    requires
        from <= v@.len(),
    ensures
        match r {
            Some(i) => first_from(v@, c, from as int) == Some(i as int) && from <= i < v@.len() <= usize::MAX,
            None => first_from(v@, c, from as int) is None,
        },
{
    let mut i = from;
    while i < v.len()
        invariant
            from <= i <= v@.len(),
            first_from(v@, c, from as int) == first_from(v@, c, i as int),
        decreases v.len() - i,
    {
        if v[i] == c {
            return Some(i);
        }
        i += 1;
    }
    None
}

/// The characters `v[a..b]` as a string.
fn slice_string(v: &Vec<char>, a: usize, b: usize) -> (r: String)
    requires
        a <= b <= v@.len(),
    ensures
        r@ == v@.subrange(a as int, b as int),
{
    let mut out = String::new();
    let mut i = a;
    while i < b
        invariant
            a <= i <= b <= v@.len(),
            out@ == v@.subrange(a as int, i as int),
        decreases b - i,
    {
        crate::text::push_char(&mut out, v[i]);
        assert(v@.subrange(a as int, i + 1) =~= v@.subrange(a as int, i as int).push(v@[i as int]));
        i += 1;
    }
    out
}

fn last_sign_index(v: &Vec<char>) -> (r: Option<usize>)
    ensures
        match r {
            Some(p) => last_sign(v@, v@.len() as int) == Some(p as int),
            None => last_sign(v@, v@.len() as int) is None,
        },
{
    let mut n = v.len();
    while n > 0
        invariant
            n <= v@.len(),
            last_sign(v@, v@.len() as int) == last_sign(v@, n as int),
        decreases n,
    {
        if v[n - 1] == '+' || v[n - 1] == '-' {
            return Some(n - 1);
        }
        n -= 1;
    }
    None
}

fn offset_index(v: &Vec<char>) -> (r: Option<usize>)
    ensures
        match r {
            Some(p) => offset_at(v@) == Some(p as int) && p <= v@.len(),
            None => offset_at(v@) is None,
        },
{
    match last_sign_index(v) {
        Some(p) => {
            proof { lemma_last_sign_bound(v@, v@.len() as int); }
            let head = slice_string(v, 0, p);
            assert(head@ =~= v@.take(p as int));
            let bytes = head.as_str().as_bytes();
            assert(bytes@ == encode_utf8(v@.take(p as int)));
            if bytes.len() >= 10 {
                Some(p)
            } else {
                None
            }
        },
        None => None,
    }
}

proof fn lemma_last_sign_bound(s: Seq<char>, n: int)
    ensures
        last_sign(s, n) matches Some(p) ==> 0 <= p < n <= s.len(),
    decreases n,
{
    if n > 0 && n <= s.len() && !(s[n - 1] == '+' || s[n - 1] == '-') {
        lemma_last_sign_bound(s, n - 1);
    }
}

/// The time stamp without its zone, and whether it named one.
fn strip_zone(t: &Vec<char>) -> (r: (Vec<char>, bool))
    ensures
        r.0@ == without_zone(t@),
        r.1 == zone_anchored(t@),
{
    let n = t.len();
    if n > 0 && t[n - 1] == 'Z' {
        let mut v: Vec<char> = Vec::new();
        let mut i: usize = 0;
        while i < n - 1
            invariant
                n == t@.len(),
                n > 0,
                i <= n - 1,
                v@ == t@.take(i as int),
            decreases n - 1 - i,
        {
            v.push(t[i]);
            assert(t@.take(i + 1) =~= t@.take(i as int).push(t@[i as int]));
            i += 1;
        }
        assert(t@.take(i as int) =~= t@.drop_last());
        (v, true)
    } else {
        match offset_index(t) {
            Some(p) => {
                let mut v: Vec<char> = Vec::new();
                let mut i: usize = 0;
                while i < p
                    invariant
                        p <= t@.len(),
                        i <= p,
                        v@ == t@.take(i as int),
                    decreases p - i,
                {
                    v.push(t[i]);
                    assert(t@.take(i + 1) =~= t@.take(i as int).push(t@[i as int]));
                    i += 1;
                }
                (v, true)
            },
            None => {
                let v = crate::text::chars_of(&crate::text::string_from_chars(t));
                (v, false)
            },
        }
    }
}

fn wall_string(t: &Vec<char>, suffix: &str) -> (r: String)
    ensures
        r@ == wall_text(t@, suffix@),
{
    let (st, _) = strip_zone(t);
    match first_index(&st, 'T', 0) {
        None => {
            let mut out = crate::text::string_from_chars(&st);
            out.append("T00:00:00");
            out.append(suffix);
            out
        },
        Some(i) => {
            let time = slice_string(&st, i + 1, st.len());
            let time_chars = crate::text::chars_of(time.as_str());
            assert(time@ =~= st@.skip(i + 1));
            let clean = match first_index(&time_chars, '.', 0) {
                Some(j) => slice_string(&time_chars, 0, j),
                None => time,
            };
            assert(clean@ =~= before_char(st@.skip(i + 1), '.'));
            let mut out = slice_string(&st, 0, i);
            assert(out@ =~= st@.take(i as int));
            out.append("T");
            out.append(clean.as_str());
            out.append(suffix);
            out
        },
    }
}

/// A UTC time stamp normalised to `YYYY-MM-DDTHH:MM:SSZ`: zone and fractional
/// seconds dropped; a date alone gets midnight.
pub fn normalise_utc_datetime(s: &str) -> (r: String)
    ensures
        r@ == normalised_utc(s@),
{
    let t = crate::exchange_ews::types::trim_chars(s);
    let v = crate::text::chars_of(t.as_str());
    wall_string(&v, "Z")
}

/// `chrono::DateTime::parse_from_rfc3339`, then `chrono_tz::Tz` from the zone
/// name and `format("%Y-%m-%dT%H:%M:%S")` in that zone. The result is named,
/// not stated: it is a function of the stamp and the zone name alone.
#[verifier::external_body]
fn convert_utc_to_local(s: &str, iana: &str) -> (r: Option<String>)
    ensures
        opt_string_view(r) == utc_wall_clock_in(s@, iana@),
{
    let utc = chrono::DateTime::parse_from_rfc3339(s).ok()?.with_timezone(&chrono::Utc);
    let tz: chrono_tz::Tz = iana.parse().ok()?;
    Some(utc.with_timezone(&tz).format("%Y-%m-%dT%H:%M:%S").to_string())
}

pub open spec fn opt_str_view(o: Option<&str>) -> Option<Seq<char>> {
    match o {
        Some(s) => Some(s@),
        None => None,
    }
}

/// A time stamp as local wall-clock time in the event's zone `iana`.
pub fn to_local_datetime_in(s: &str, iana: Option<&str>) -> (r: String)
    ensures
        r@ == local_in(s@, opt_str_view(iana)),
{
    let t = crate::exchange_ews::types::trim_chars(s);
    let v = crate::text::chars_of(t.as_str());
    let (_, anchored) = strip_zone(&v);
    if anchored {
        match iana {
            Some(tz) => match convert_utc_to_local(t.as_str(), tz) {
                Some(out) => {
                    return out;
                },
                None => {},
            },
            None => {},
        }
    }
    wall_string(&v, "")
}


// ---------------------------------------------------------------------------
// Days and durations

/// Division that truncates toward zero, as Rust's `/` on integers.
pub open spec fn tdiv(a: int, b: int) -> int {
    if a >= 0 { a / b } else { -((-a) / b) }
}

/// The year, month and day of `Y-M-D`: the first three `-`-separated fields,
/// parsed as `i64`, `u32` and `u32`.
pub open spec fn ymd_of(s: Seq<char>) -> Option<(int, nat, nat)> {
    let y = signed_value(before_char(s, '-'));
    match after_char(s, '-') {
        None => None,
        Some(r1) => {
            let m = unsigned_value(before_char(r1, '-'), 0xffff_ffff);
            match after_char(r1, '-') {
                None => None,
                Some(r2) => {
                    let d = unsigned_value(before_char(r2, '-'), 0xffff_ffff);
                    if y is Some && m is Some && d is Some {
                        Some((y->Some_0, m->Some_0, d->Some_0))
                    } else {
                        None
                    }
                },
            }
        },
    }
}

/// The day number of a date in the proleptic Gregorian calendar (with
/// truncating division, as the code computes it).
pub open spec fn day_number(y: int, m: int, d: int) -> int {
    let (y1, m1) = if m <= 2 { (y - 1, m + 12) } else { (y, m) };
    let y2 = y1 + 4800;
    let mm = m1 + 1;
    365 * y2 + tdiv(y2, 4) - tdiv(y2, 100) + tdiv(y2, 400) + 30 * mm + (3 * (mm + 1)) / 5 + d - 32045
}

/// The number of days an all-day event from `start` to `end` covers: the
/// difference of the dates (taken modulo 2^32), or 1 when a date does not
/// parse or the difference is not positive.
pub open spec fn span_days(start: Seq<char>, end: Seq<char>) -> u32 {
    match (ymd_of(before_char(start, 'T')), ymd_of(before_char(end, 'T'))) {
        (Some(s), Some(e)) => {
            let diff = day_number(e.0, e.1 as int, e.2 as int) - day_number(s.0, s.1 as int, s.2 as int);
            if diff <= 0 { 1 } else { (diff % 0x1_0000_0000) as u32 }
        },
        _ => 1,
    }
}

/// `s` up to its first `c`, and what follows it.
pub(crate) fn split_once(s: &str, c: char) -> (r: (String, Option<String>))
    ensures
        r.0@ == before_char(s@, c),
        opt_string_view(r.1) == after_char(s@, c),
{
    let v = crate::text::chars_of(s);
    match first_index(&v, c, 0) {
        Some(i) => {
            let head = slice_string(&v, 0, i);
            let tail = slice_string(&v, i + 1, v.len());
            assert(head@ =~= v@.take(i as int));
            assert(tail@ =~= v@.skip(i + 1));
            (head, Some(tail))
        },
        None => (crate::text::string_from_chars(&v), None),
    }
}

fn ymd(s: &str) -> (r: Option<(i64, u32, u32)>)
    ensures
        match ymd_of(s@) {
            Some(t) => r matches Some(x) && x.0 as int == t.0 && x.1 as nat == t.1 && x.2 as nat == t.2,
            None => r is None,
        },
{
    let (p1, r1) = split_once(s, '-');
    let y = parse_i64(p1.as_str());
    let r1 = match r1 {
        Some(r) => r,
        None => {
            return None;
        },
    };
    let (p2, r2) = split_once(r1.as_str(), '-');
    let m = parse_unsigned(p2.as_str(), 0xffff_ffff);
    let r2 = match r2 {
        Some(r) => r,
        None => {
            return None;
        },
    };
    let (p3, _) = split_once(r2.as_str(), '-');
    let d = parse_unsigned(p3.as_str(), 0xffff_ffff);
    match (y, m, d) {
        (Some(y), Some(m), Some(d)) => Some((y, m as u32, d as u32)),
        _ => None,
    }
}

fn truncating_div(a: i128, b: i128) -> (r: i128)
    requires
        b > 0,
        a > i128::MIN,
    ensures
        r == tdiv(a as int, b as int),
{
    if a >= 0 {
        a / b
    } else {
        -((-a) / b)
    }
}

fn to_days(y: i64, m: u32, d: u32) -> (r: i128)
    ensures
        r == day_number(y as int, m as int, d as int),
{
    let (y1, m1): (i128, i128) = if m <= 2 {
        (y as i128 - 1, m as i128 + 12)
    } else {
        (y as i128, m as i128)
    };
    let y2 = y1 + 4800;
    let mm = m1 + 1;
    365 * y2 + truncating_div(y2, 4) - truncating_div(y2, 100) + truncating_div(y2, 400) + 30 * mm + (3 * (mm + 1)) / 5
        + d as i128 - 32045
}

/// The number of days that an all-day event from `start` to `end` spans;
/// 1 where a date does not parse or the end is not after the start.
pub fn all_day_span_days(start: &str, end: &str) -> (r: u32)
    ensures
        r == span_days(start@, end@),
{
    let (sd, _) = split_once(start, 'T');
    let (ed, _) = split_once(end, 'T');
    match (ymd(sd.as_str()), ymd(ed.as_str())) {
        (Some(s), Some(e)) => {
            let diff = to_days(e.0, e.1, e.2) - to_days(s.0, s.1, s.2);
            if diff <= 0 {
                1
            } else {
                (diff % 0x1_0000_0000) as u32
            }
        },
        _ => 1,
    }
}

/// The instant that an RFC 3339 time stamp denotes, as the `time` crate reads
/// it: seconds since the Unix epoch and nanoseconds within the second.
pub uninterp spec fn rfc3339_instant(stamp: Seq<char>) -> Option<(int, int)>;

/// `time::OffsetDateTime::parse` with the RFC 3339 format, then
/// `unix_timestamp` and `nanosecond` (which the crate documents to be below
/// one billion). The instant is named, not stated.
#[verifier::external_body]
fn parse_instant(s: &str) -> (r: Option<(i64, u32)>)
    ensures
        match r {
            Some(p) => rfc3339_instant(s@) == Some((p.0 as int, p.1 as int)) && p.1 < 1_000_000_000,
            None => rfc3339_instant(s@) is None,
        },
{
    let t = time::OffsetDateTime::parse(s, &time::format_description::well_known::Rfc3339).ok()?;
    Some((t.unix_timestamp(), t.nanosecond()))
}

/// `n` followed by `unit`, or nothing when `n` is not positive.
pub open spec fn part(n: int, unit: Seq<char>) -> Seq<char> {
    if n > 0 { decimal(n as nat) + unit } else { Seq::empty() }
}

/// The ISO 8601 text of a span of `total` whole seconds: hours, minutes and
/// seconds, each only when positive, and seconds also when nothing else is.
pub open spec fn seconds_text(total: int) -> Seq<char> {
    let h = total / 3600;
    let m = (total % 3600) / 60;
    let s = total % 60;
    "PT"@ + part(h, "H"@) + part(m, "M"@) + (if s > 0 || (h == 0 && m == 0) { decimal(s as nat) + "S"@ } else { Seq::empty() })
}

/// The ISO 8601 duration from `start` to `end`: `PT0S` when they coincide,
/// none when either does not parse or the end is a second or more earlier.
pub open spec fn duration_of(start: Seq<char>, end: Seq<char>) -> Option<Seq<char>> {
    match (rfc3339_instant(start), rfc3339_instant(end)) {
        (Some(s), Some(e)) => {
            let nanos = (e.0 - s.0) * 1_000_000_000 + (e.1 - s.1);
            if nanos == 0 {
                Some("PT0S"@)
            } else {
                let total = tdiv(nanos, 1_000_000_000);
                if total < 0 { None } else { Some(seconds_text(total)) }
            }
        },
        _ => None,
    }
}

fn append_part(out: &mut String, n: u64, unit: &str)
    ensures
        final(out)@ == old(out)@ + part(n as int, unit@),
{
    if n > 0 {
        let d = decimal_string(n);
        out.append(d.as_str());
        out.append(unit);
    } else {
        assert(old(out)@ + part(n as int, unit@) =~= old(out)@);
    }
}

/// The ISO 8601 duration from `start` to `end`.
pub fn duration_iso8601(start: &str, end: &str) -> (r: Option<String>)
    ensures
        opt_string_view(r) == duration_of(start@, end@),
{
    let s = match parse_instant(start) {
        Some(p) => p,
        None => {
            return None;
        },
    };
    let e = match parse_instant(end) {
        Some(p) => p,
        None => {
            return None;
        },
    };
    let nanos: i128 = (e.0 as i128 - s.0 as i128) * 1_000_000_000 + (e.1 as i128 - s.1 as i128);
    if nanos == 0 {
        return Some("PT0S".to_owned());
    }
    let total = truncating_div(nanos, 1_000_000_000);
    if total < 0 {
        return None;
    }
    let total = total as u64;
    let h = total / 3600;
    let m = (total % 3600) / 60;
    let sec = total % 60;
    let mut out = "PT".to_owned();
    append_part(&mut out, h, "H");
    append_part(&mut out, m, "M");
    if sec > 0 || (h == 0 && m == 0) {
        let d = decimal_string(sec);
        out.append(d.as_str());
        out.append("S");
    }
    Some(out)
}

// ---------------------------------------------------------------------------
// Events

/// The BLAKE3 digest of `data` in lower-case hexadecimal, as
/// `blake3::hash(..).to_hex()` writes it.
pub uninterp spec fn blake3_hex_of(data: Seq<u8>) -> Seq<char>;

/// `blake3::hash` and `Hash::to_hex`. The digest is named, not stated.
#[verifier::external_body]
pub(crate) fn blake3_hex(data: &[u8]) -> (r: String)
    ensures
        r@ == blake3_hex_of(data@),
{
    blake3::hash(data).to_hex().to_string()
}

pub type Members = Seq<(Seq<char>, JsonV)>;

/// A string member, present where the value is.
pub open spec fn opt_member(k: Seq<char>, v: Option<Seq<char>>) -> Members {
    match v {
        Some(x) => seq![(k, jstr(x))],
        None => Seq::empty(),
    }
}

/// The event's uid: its own, else one derived from the digest of its id.
pub open spec fn event_uid(raw: CalendarV) -> Seq<char> {
    match raw.uid {
        Some(u) => u,
        None => "vandelay-ews-event-"@ + blake3_hex_of(encode_utf8(raw.id)),
    }
}

/// The IANA zone of a Windows zone name, or the name itself where the table
/// lacks it.
pub open spec fn iana_of(tz: Seq<char>) -> Seq<char> {
    match zone_lookup(zone_table(), trimmed(tz), zone_table().len() as int) {
        Some(z) => z,
        None => tz,
    }
}

pub open spec fn event_zone(raw: CalendarV) -> Option<Seq<char>> {
    match raw.start_tz {
        Some(tz) => Some(iana_of(tz)),
        None => None,
    }
}

pub open spec fn location_members(raw: CalendarV) -> Members {
    match raw.location {
        Some(loc) => seq![("locations"@, single("1"@, typed_pair("Location"@, "name"@, loc)))],
        None => Seq::empty(),
    }
}

/// The plain-text body, else the HTML body with its content type.
pub open spec fn description_members(raw: CalendarV) -> Members {
    match raw.body_text {
        Some(b) => seq![("description"@, jstr(b))],
        None => match raw.body_html {
            Some(b) => seq![("description"@, jstr(b)), ("descriptionContentType"@, jstr("text/html"@))],
            None => Seq::empty(),
        },
    }
}

pub open spec fn stamp_members(raw: CalendarV) -> Members {
    (match raw.created {
        Some(c) => seq![("created"@, jstr(normalised_utc(c)))],
        None => Seq::empty(),
    }) + match raw.last_modified {
        Some(u) => seq![("updated"@, jstr(normalised_utc(u)))],
        None => Seq::empty(),
    }
}

/// Each category, lower-cased, as a keyword; a repeated keyword once.
pub open spec fn keyword_entries(cats: Seq<Seq<char>>) -> Members
    decreases cats.len(),
{
    if cats.len() == 0 {
        Seq::empty()
    } else {
        object_put(keyword_entries(cats.drop_last()), lower_seq(cats.last()), JsonV::Bool(true))
    }
}

pub open spec fn keyword_members(cats: Seq<Seq<char>>) -> Members {
    if cats.len() > 0 { seq![("keywords"@, JsonV::Object(keyword_entries(cats)))] } else { Seq::empty() }
}

/// The days an all-day event lasts: at least one.
pub open spec fn all_day_days(raw: CalendarV) -> nat {
    match (raw.start, raw.end) {
        (Some(s), Some(e)) => if span_days(s, e) >= 1 { span_days(s, e) as nat } else { 1 },
        _ => 1,
    }
}

pub open spec fn duration_members(start: Option<Seq<char>>, end: Option<Seq<char>>) -> Members {
    match (start, end) {
        (Some(s), Some(e)) => match duration_of(s, e) {
            Some(d) => seq![("duration"@, jstr(d))],
            None => Seq::empty(),
        },
        _ => Seq::empty(),
    }
}

/// Start, duration and zone: an all-day event starts at midnight of its start
/// date and shows no time; another starts at its local time in its zone.
pub open spec fn time_members(raw: CalendarV) -> Members {
    if raw.is_all_day_event == Some(true) {
        (match raw.start {
            Some(st) => seq![("start"@, jstr(before_char(st, 'T') + "T00:00:00"@))],
            None => Seq::empty(),
        }) + seq![
            ("showWithoutTime"@, JsonV::Bool(true)),
            ("duration"@, jstr("P"@ + decimal(all_day_days(raw)) + "D"@)),
        ]
    } else {
        (match raw.start {
            Some(st) => seq![("start"@, jstr(local_in(st, event_zone(raw))))],
            None => Seq::empty(),
        }) + duration_members(raw.start, raw.end) + match event_zone(raw) {
            Some(z) => seq![("timeZone"@, jstr(z))],
            None => Seq::empty(),
        }
    }
}

pub open spec fn free_busy_members(raw: CalendarV) -> Members {
    match raw.legacy_free_busy_status {
        Some(st) => seq![("freeBusyStatus"@, jstr(if st == "Free"@ { "free"@ } else { "busy"@ }))],
        None => Seq::empty(),
    }
}

/// The organizer as a participant: owner and chair.
pub open spec fn organizer_json(email: Seq<char>, name: Option<Seq<char>>) -> JsonV {
    JsonV::Object(seq![
        ("@type"@, jstr("Participant"@)),
        ("calendarAddress"@, jstr("mailto:"@ + email)),
        ("email"@, jstr(email)),
        ("roles"@, JsonV::Object(seq![("owner"@, JsonV::Bool(true)), ("chair"@, JsonV::Bool(true))])),
    ] + opt_member("name"@, name))
}

/// The participation status of an EWS response type.
pub open spec fn status_of(rt: Seq<char>) -> Seq<char> {
    if rt == "Accept"@ || rt == "Organizer"@ {
        "accepted"@
    } else if rt == "Tentative"@ {
        "tentative"@
    } else if rt == "Decline"@ {
        "declined"@
    } else {
        "needs-action"@
    }
}

/// An attendee as a participant, required or optional.
pub open spec fn attendee_json(a: AttendeeV, required: bool) -> JsonV {
    JsonV::Object(seq![("@type"@, jstr("Participant"@))] + (match a.email {
        Some(e) => seq![("calendarAddress"@, jstr("mailto:"@ + e)), ("email"@, jstr(e))],
        None => Seq::empty(),
    }) + opt_member("name"@, a.name) + seq![
        ("roles"@, single(if required { "required"@ } else { "optional"@ }, JsonV::Bool(true))),
    ] + match a.response_type {
        Some(rt) => seq![("participationStatus"@, jstr(status_of(rt)))],
        None => Seq::empty(),
    })
}

/// Attendees keyed by consecutive numbers from `first`.
pub open spec fn attendee_entries(list: Seq<AttendeeV>, first: nat, required: bool) -> Members
    decreases list.len(),
{
    if list.len() == 0 {
        Seq::empty()
    } else {
        attendee_entries(list.drop_last(), first, required).push(
            (decimal((first + list.len() - 1) as nat), attendee_json(list.last(), required)),
        )
    }
}

/// The organizer, then the required and the optional attendees, numbered from 1.
pub open spec fn participant_entries(raw: CalendarV) -> Members {
    let org: Members = match raw.organizer_smtp {
        Some(email) => seq![("1"@, organizer_json(email, raw.organizer_name))],
        None => Seq::empty(),
    };
    let first = org.len() + 1;
    org + attendee_entries(raw.required_attendees, first, true) + attendee_entries(
        raw.optional_attendees,
        first + raw.required_attendees.len(),
        false,
    )
}

pub open spec fn participant_members(raw: CalendarV) -> Members {
    (match raw.organizer_smtp {
        Some(email) => seq![("organizerCalendarAddress"@, jstr("mailto:"@ + email))],
        None => Seq::empty(),
    }) + if participant_entries(raw).len() > 0 {
        seq![("participants"@, JsonV::Object(participant_entries(raw)))]
    } else {
        Seq::empty()
    }
}

pub open spec fn rule_members(raw: CalendarV) -> Members {
    match raw.recurrence {
        Some(rec) => match rule_of(rec) {
            Some(rule) => seq![("recurrenceRules"@, JsonV::Array(seq![rule]))],
            None => Seq::empty(),
        },
        None => Seq::empty(),
    }
}

/// A moved occurrence: its new start and duration.
pub open spec fn moved_json(o: OccurrenceV, iana: Option<Seq<char>>) -> JsonV {
    JsonV::Object((match o.start {
        Some(s) => seq![("start"@, jstr(local_in(s, iana)))],
        None => Seq::empty(),
    }) + duration_members(o.start, o.end))
}

/// The moved occurrences, each under the local time it was first due (or
/// its start); one without either is left out.
pub open spec fn moved_entries(list: Seq<OccurrenceV>, iana: Option<Seq<char>>) -> Members
    decreases list.len(),
{
    if list.len() == 0 {
        Seq::empty()
    } else {
        let prev = moved_entries(list.drop_last(), iana);
        let o = list.last();
        let key = match o.original_start {
            Some(s) => Some(s),
            None => o.start,
        };
        match key {
            Some(k) => object_put(prev, local_in(k, iana), moved_json(o, iana)),
            None => prev,
        }
    }
}

/// The deleted occurrences, each excluded under the local time of its start.
pub open spec fn excluded_entries(acc: Members, list: Seq<OccurrenceV>, iana: Option<Seq<char>>) -> Members
    decreases list.len(),
{
    if list.len() == 0 {
        acc
    } else {
        let prev = excluded_entries(acc, list.drop_last(), iana);
        match list.last().start {
            Some(s) => object_put(prev, local_in(s, iana), single("excluded"@, JsonV::Bool(true))),
            None => prev,
        }
    }
}

pub open spec fn overrides_of(moved: Seq<OccurrenceV>, deleted: Seq<OccurrenceV>, iana: Option<Seq<char>>) -> Option<JsonV> {
    let m = excluded_entries(moved_entries(moved, iana), deleted, iana);
    if m.len() == 0 { None } else { Some(JsonV::Object(m)) }
}

pub open spec fn override_members(raw: CalendarV) -> Members {
    match overrides_of(raw.modified_occurrences, raw.deleted_occurrences, event_zone(raw)) {
        Some(v) => seq![("recurrenceOverrides"@, v)],
        None => Seq::empty(),
    }
}

/// The JSCalendar event of a calendar item.
pub open spec fn event_json(raw: CalendarV) -> JsonV {
    JsonV::Object(seq![("@type"@, jstr("Event"@)), ("uid"@, jstr(event_uid(raw)))] + opt_member("title"@, raw.subject)
        + location_members(raw) + description_members(raw) + stamp_members(raw) + keyword_members(raw.categories)
        + time_members(raw) + free_busy_members(raw) + participant_members(raw) + rule_members(raw)
        + override_members(raw))
}

/// An event as the JMAP store takes it.
pub struct EventValue {
    pub data: JsonValue,
    pub is_draft: bool,
    pub use_default_alerts: bool,
}

/// How many participants an item has.
pub open spec fn participant_count(raw: CalendarV) -> int {
    (if raw.organizer_smtp is Some { 1int } else { 0int }) + raw.required_attendees.len() + raw.optional_attendees.len()
}

fn add_opt_member(o: &mut Vec<(String, JsonValue)>, k: &str, v: &Option<String>)
    ensures
        entries_view(final(o)@) == entries_view(old(o)@) + opt_member(k@, opt_string_view(*v)),
{
    let ghost before = entries_view(o@);
    match v {
        Some(x) => {
            push_member(o, k, json_string(x.as_str()));
        },
        None => {},
    }
    assert(entries_view(o@) =~= before + opt_member(k@, opt_string_view(*v)));
}

fn add_locations(o: &mut Vec<(String, JsonValue)>, raw: &CalendarItemRaw)
    ensures
        entries_view(final(o)@) == entries_view(old(o)@) + location_members(raw@),
{
    let ghost before = entries_view(o@);
    match &raw.location {
        Some(loc) => {
            let l = typed_string_pair("Location", "name", loc.as_str());
            push_member(o, "locations", single_member("1", l));
        },
        None => {},
    }
    assert(entries_view(o@) =~= before + location_members(raw@));
}

fn add_description(o: &mut Vec<(String, JsonValue)>, raw: &CalendarItemRaw)
    ensures
        entries_view(final(o)@) == entries_view(old(o)@) + description_members(raw@),
{
    let ghost before = entries_view(o@);
    match &raw.body_text {
        Some(b) => {
            push_member(o, "description", json_string(b.as_str()));
        },
        None => match &raw.body_html {
            Some(b) => {
                push_member(o, "description", json_string(b.as_str()));
                push_member(o, "descriptionContentType", json_string("text/html"));
            },
            None => {},
        },
    }
    assert(entries_view(o@) =~= before + description_members(raw@));
}

fn add_stamps(o: &mut Vec<(String, JsonValue)>, raw: &CalendarItemRaw)
    ensures
        entries_view(final(o)@) == entries_view(old(o)@) + stamp_members(raw@),
{
    let ghost before = entries_view(o@);
    match &raw.created {
        Some(c) => {
            push_member(o, "created", JsonValue::Str(normalise_utc_datetime(c.as_str())));
        },
        None => {},
    }
    match &raw.last_modified {
        Some(u) => {
            push_member(o, "updated", JsonValue::Str(normalise_utc_datetime(u.as_str())));
        },
        None => {},
    }
    assert(entries_view(o@) =~= before + stamp_members(raw@));
}

/// The keyword object of the categories.
pub fn keyword_object(cats: &Vec<String>) -> (r: Vec<(String, JsonValue)>)
    ensures
        entries_view(r@) == keyword_entries(strings_view(cats@)),
{
    let ghost s = strings_view(cats@);
    let mut kw: Vec<(String, JsonValue)> = Vec::new();
    let mut i: usize = 0;
    assert(s.take(0) =~= Seq::<Seq<char>>::empty());
    assert(entries_view(kw@) =~= Seq::<(Seq<char>, JsonV)>::empty());
    while i < cats.len()
        invariant
            s == strings_view(cats@),
            s.len() == cats@.len(),
            i <= cats@.len(),
            entries_view(kw@) == keyword_entries(s.take(i as int)),
        decreases cats.len() - i,
    {
        assert(s.take(i + 1).drop_last() =~= s.take(i as int));
        assert(s.take(i + 1).last() == cats@[i as int]@);
        put_member(&mut kw, to_lower(cats[i].as_str()), JsonValue::Bool(true));
        i += 1;
    }
    assert(s.take(i as int) =~= s);
    kw
}

fn add_keywords(o: &mut Vec<(String, JsonValue)>, cats: &Vec<String>)
    ensures
        entries_view(final(o)@) == entries_view(old(o)@) + keyword_members(strings_view(cats@)),
{
    let ghost before = entries_view(o@);
    if cats.len() > 0 {
        let kw = keyword_object(cats);
        push_member(o, "keywords", JsonValue::Object(kw));
    }
    assert(entries_view(o@) =~= before + keyword_members(strings_view(cats@)));
}

fn add_duration(o: &mut Vec<(String, JsonValue)>, start: &Option<String>, end: &Option<String>)
    ensures
        entries_view(final(o)@) == entries_view(old(o)@) + duration_members(opt_string_view(*start), opt_string_view(*end)),
{
    let ghost before = entries_view(o@);
    match (start, end) {
        (Some(s), Some(e)) => match duration_iso8601(s.as_str(), e.as_str()) {
            Some(d) => {
                push_member(o, "duration", JsonValue::Str(d));
            },
            None => {},
        },
        _ => {},
    }
    assert(entries_view(o@) =~= before + duration_members(opt_string_view(*start), opt_string_view(*end)));
}

fn add_time(o: &mut Vec<(String, JsonValue)>, raw: &CalendarItemRaw, iana: Option<&str>)
    requires
        opt_str_view(iana) == event_zone(raw@),
    ensures
        entries_view(final(o)@) == entries_view(old(o)@) + time_members(raw@),
{
    let ghost before = entries_view(o@);
    if raw.is_all_day_event == Some(true) {
        match &raw.start {
            Some(st) => {
                let (date, _) = split_once(st.as_str(), 'T');
                let mut v = date;
                v.append("T00:00:00");
                push_member(o, "start", JsonValue::Str(v));
            },
            None => {},
        }
        push_member(o, "showWithoutTime", JsonValue::Bool(true));
        let days: u32 = match (&raw.start, &raw.end) {
            (Some(s), Some(e)) => {
                let d = all_day_span_days(s.as_str(), e.as_str());
                if d >= 1 { d } else { 1 }
            },
            _ => 1,
        };
        let mut dur = "P".to_owned();
        let n = decimal_string(days as u64);
        dur.append(n.as_str());
        dur.append("D");
        push_member(o, "duration", JsonValue::Str(dur));
        assert(entries_view(o@) =~= before + time_members(raw@));
    } else {
        match &raw.start {
            Some(st) => {
                push_member(o, "start", JsonValue::Str(to_local_datetime_in(st.as_str(), iana)));
            },
            None => {},
        }
        let ghost mid = entries_view(o@);
        add_duration(o, &raw.start, &raw.end);
        match iana {
            Some(z) => {
                push_member(o, "timeZone", json_string(z));
            },
            None => {},
        }
        assert(entries_view(o@) =~= before + time_members(raw@));
    }
}

fn add_free_busy(o: &mut Vec<(String, JsonValue)>, raw: &CalendarItemRaw)
    ensures
        entries_view(final(o)@) == entries_view(old(o)@) + free_busy_members(raw@),
{
    let ghost before = entries_view(o@);
    match &raw.legacy_free_busy_status {
        Some(st) => {
            let mapped = if str_eq(st.as_str(), "Free") { "free" } else { "busy" };
            push_member(o, "freeBusyStatus", json_string(mapped));
        },
        None => {},
    }
    assert(entries_view(o@) =~= before + free_busy_members(raw@));
}

fn mailto(email: &str) -> (r: String)
    ensures
        r@ == "mailto:"@ + email@,
{
    let mut a = "mailto:".to_owned();
    a.append(email);
    a
}

fn organizer_value(email: &str, name: &Option<String>) -> (r: JsonValue)
    ensures
        r@ == organizer_json(email@, opt_string_view(*name)),
{
    let mut p: Vec<(String, JsonValue)> = Vec::new();
    push_member(&mut p, "@type", json_string("Participant"));
    push_member(&mut p, "calendarAddress", JsonValue::Str(mailto(email)));
    push_member(&mut p, "email", json_string(email));
    let mut roles: Vec<(String, JsonValue)> = Vec::new();
    push_member(&mut roles, "owner", JsonValue::Bool(true));
    push_member(&mut roles, "chair", JsonValue::Bool(true));
    assert(entries_view(roles@) =~= seq![("owner"@, JsonV::Bool(true)), ("chair"@, JsonV::Bool(true))]) by {
        reveal_with_fuel(entries_view, 3);
    }
    push_member(&mut p, "roles", JsonValue::Object(roles));
    let ghost head = entries_view(p@);
    assert(head =~= seq![
        ("@type"@, jstr("Participant"@)),
        ("calendarAddress"@, jstr("mailto:"@ + email@)),
        ("email"@, jstr(email@)),
        ("roles"@, JsonV::Object(seq![("owner"@, JsonV::Bool(true)), ("chair"@, JsonV::Bool(true))])),
    ]) by {
        reveal_with_fuel(entries_view, 5);
    }
    add_opt_member(&mut p, "name", name);
    JsonValue::Object(p)
}

fn participation_status(rt: &str) -> (r: &'static str)
    ensures
        r@ == status_of(rt@),
{
    if str_eq(rt, "Accept") || str_eq(rt, "Organizer") {
        "accepted"
    } else if str_eq(rt, "Tentative") {
        "tentative"
    } else if str_eq(rt, "Decline") {
        "declined"
    } else {
        "needs-action"
    }
}

fn attendee_value(a: &RawAttendee, required: bool) -> (r: JsonValue)
    ensures
        r@ == attendee_json(a@, required),
{
    let mut p: Vec<(String, JsonValue)> = Vec::new();
    push_member(&mut p, "@type", json_string("Participant"));
    assert(entries_view(p@) =~= seq![("@type"@, jstr("Participant"@))]) by {
        reveal_with_fuel(entries_view, 2);
    }
    let ghost s0 = entries_view(p@);
    match &a.email {
        Some(e) => {
            push_member(&mut p, "calendarAddress", JsonValue::Str(mailto(e.as_str())));
            push_member(&mut p, "email", json_string(e.as_str()));
        },
        None => {},
    }
    let ghost s1 = entries_view(p@);
    assert(s1 =~= s0 + (match a@.email {
        Some(e) => seq![("calendarAddress"@, jstr("mailto:"@ + e)), ("email"@, jstr(e))],
        None => Seq::empty(),
    }));
    add_opt_member(&mut p, "name", &a.name);
    let role = if required { "required" } else { "optional" };
    push_member(&mut p, "roles", single_member(role, JsonValue::Bool(true)));
    let ghost s2 = entries_view(p@);
    match &a.response_type {
        Some(rt) => {
            push_member(&mut p, "participationStatus", json_string(participation_status(rt.as_str())));
        },
        None => {},
    }
    assert(entries_view(p@) =~= s0 + (match a@.email {
        Some(e) => seq![("calendarAddress"@, jstr("mailto:"@ + e)), ("email"@, jstr(e))],
        None => Seq::empty(),
    }) + opt_member("name"@, a@.name) + seq![
        ("roles"@, single(if required { "required"@ } else { "optional"@ }, JsonV::Bool(true))),
    ] + match a@.response_type {
        Some(rt) => seq![("participationStatus"@, jstr(status_of(rt)))],
        None => Seq::empty(),
    });
    JsonValue::Object(p)
}

/// Adds the attendees as participants numbered from `next_id` on.
fn add_attendees(out: &mut Vec<(String, JsonValue)>, next_id: &mut u32, attendees: &Vec<RawAttendee>, required: bool)
    requires
        *old(next_id) + attendees@.len() <= u32::MAX,
    ensures
        entries_view(final(out)@) == entries_view(old(out)@) + attendee_entries(
            attendees_view(attendees@),
            *old(next_id) as nat,
            required,
        ),
        *final(next_id) == *old(next_id) + attendees@.len(),
{
    let ghost before = entries_view(out@);
    let ghost first = *next_id as nat;
    let ghost l = attendees_view(attendees@);
    let mut i: usize = 0;
    assert(l.take(0) =~= Seq::<AttendeeV>::empty());
    assert(before + attendee_entries(l.take(0), first, required) =~= before);
    while i < attendees.len()
        invariant
            l == attendees_view(attendees@),
            l.len() == attendees@.len(),
            i <= attendees@.len(),
            first + attendees@.len() <= u32::MAX,
            *next_id == first + i,
            entries_view(out@) == before + attendee_entries(l.take(i as int), first, required),
        decreases attendees.len() - i,
    {
        assert(l.take(i + 1).drop_last() =~= l.take(i as int));
        assert(l.take(i + 1).last() == attendees@[i as int]@);
        let key = decimal_string(*next_id as u64);
        *next_id = *next_id + 1;
        let p = attendee_value(&attendees[i], required);
        put_member_fresh(out, key, p);
        i += 1;
        assert(before + attendee_entries(l.take(i as int), first, required) =~= (before + attendee_entries(
            l.take(i - 1),
            first,
            required,
        )).push((decimal((first + i - 1) as nat), attendee_json(attendees@[i - 1]@, required))));
    }
    assert(l.take(i as int) =~= l);
}

/// Adds a member at the end.
fn put_member_fresh(o: &mut Vec<(String, JsonValue)>, k: String, x: JsonValue)
    ensures
        entries_view(final(o)@) == entries_view(old(o)@).push((k@, x@)),
{
    proof { crate::json::lemma_entries_push(o@, (k, x)); }
    o.push((k, x));
}

fn add_participants(o: &mut Vec<(String, JsonValue)>, raw: &CalendarItemRaw)
    requires
        participant_count(raw@) < u32::MAX,
    ensures
        entries_view(final(o)@) == entries_view(old(o)@) + participant_members(raw@),
{
    let ghost before = entries_view(o@);
    let mut participants: Vec<(String, JsonValue)> = Vec::new();
    let mut next_id: u32 = 1;
    match &raw.organizer_smtp {
        Some(email) => {
            let key = decimal_string(next_id as u64);
            next_id += 1;
            push_member(o, "organizerCalendarAddress", JsonValue::Str(mailto(email.as_str())));
            put_member_fresh(&mut participants, key, organizer_value(email.as_str(), &raw.organizer_name));
            assert(decimal(1) =~= "1"@) by {
                reveal_strlit("1");
            }
        },
        None => {},
    }
    let ghost org = entries_view(participants@);
    assert(org =~= match raw@.organizer_smtp {
        Some(email) => seq![("1"@, organizer_json(email, raw@.organizer_name))],
        None => Seq::<(Seq<char>, JsonV)>::empty(),
    }) by {
        reveal_with_fuel(entries_view, 2);
    }
    let ghost mid = entries_view(o@);
    add_attendees(&mut participants, &mut next_id, &raw.required_attendees, true);
    add_attendees(&mut participants, &mut next_id, &raw.optional_attendees, false);
    assert(entries_view(participants@) =~= participant_entries(raw@));
    if participants.len() > 0 {
        proof { crate::json::lemma_entries_len(participants@); }
        push_member(o, "participants", JsonValue::Object(participants));
    } else {
        proof { crate::json::lemma_entries_len(participants@); }
    }
    assert(entries_view(o@) =~= before + participant_members(raw@));
}

fn add_rules(o: &mut Vec<(String, JsonValue)>, raw: &CalendarItemRaw)
    ensures
        entries_view(final(o)@) == entries_view(old(o)@) + rule_members(raw@),
{
    let ghost before = entries_view(o@);
    match &raw.recurrence {
        Some(rec) => match to_jscalendar_rule(rec) {
            Some(rule) => {
                let mut a: Vec<JsonValue> = Vec::new();
                let ghost rv = rule@;
                push_item(&mut a, rule);
                assert(items_view(a@) =~= seq![rv]) by {
                    reveal_with_fuel(items_view, 2);
                }
                push_member(o, "recurrenceRules", JsonValue::Array(a));
            },
            None => {},
        },
        None => {},
    }
    assert(entries_view(o@) =~= before + rule_members(raw@));
}

fn moved_value(occ: &RawOccurrence, iana: Option<&str>) -> (r: JsonValue)
    ensures
        r@ == moved_json(occ@, opt_str_view(iana)),
{
    let mut m: Vec<(String, JsonValue)> = Vec::new();
    match &occ.start {
        Some(st) => {
            push_member(&mut m, "start", JsonValue::Str(to_local_datetime_in(st.as_str(), iana)));
        },
        None => {},
    }
    let ghost head = entries_view(m@);
    assert(head =~= match occ@.start {
        Some(s) => seq![("start"@, jstr(local_in(s, opt_str_view(iana))))],
        None => Seq::<(Seq<char>, JsonV)>::empty(),
    }) by {
        reveal_with_fuel(entries_view, 2);
    }
    add_duration(&mut m, &occ.start, &occ.end);
    JsonValue::Object(m)
}

/// The overrides of a series: moved occurrences keyed by the local time they
/// were first due, deleted ones excluded; none when there are none.
pub fn build_recurrence_overrides(modified: &Vec<RawOccurrence>, deleted: &Vec<RawOccurrence>, iana: Option<&str>) -> (r: Option<JsonValue>)
    ensures
        opt_json_view(r) == overrides_of(occurrences_view(modified@), occurrences_view(deleted@), opt_str_view(iana)),
{
    let ghost z = opt_str_view(iana);
    let ghost ml = occurrences_view(modified@);
    let ghost dl = occurrences_view(deleted@);
    let mut map: Vec<(String, JsonValue)> = Vec::new();
    let mut i: usize = 0;
    assert(ml.take(0) =~= Seq::<OccurrenceV>::empty());
    assert(entries_view(map@) =~= Seq::<(Seq<char>, JsonV)>::empty());
    while i < modified.len()
        invariant
            ml == occurrences_view(modified@),
            ml.len() == modified@.len(),
            z == opt_str_view(iana),
            i <= modified@.len(),
            entries_view(map@) == moved_entries(ml.take(i as int), z),
        decreases modified.len() - i,
    {
        assert(ml.take(i + 1).drop_last() =~= ml.take(i as int));
        assert(ml.take(i + 1).last() == modified@[i as int]@);
        let occ = &modified[i];
        let key_src: Option<&String> = match &occ.original_start {
            Some(s) => Some(s),
            None => match &occ.start {
                Some(s) => Some(s),
                None => None,
            },
        };
        match key_src {
            Some(k) => {
                let key = to_local_datetime_in(k.as_str(), iana);
                put_member(&mut map, key, moved_value(occ, iana));
            },
            None => {},
        }
        i += 1;
    }
    assert(ml.take(i as int) =~= ml);
    let ghost moved = entries_view(map@);
    let mut j: usize = 0;
    assert(dl.take(0) =~= Seq::<OccurrenceV>::empty());
    while j < deleted.len()
        invariant
            dl == occurrences_view(deleted@),
            dl.len() == deleted@.len(),
            z == opt_str_view(iana),
            j <= deleted@.len(),
            entries_view(map@) == excluded_entries(moved, dl.take(j as int), z),
        decreases deleted.len() - j,
    {
        assert(dl.take(j + 1).drop_last() =~= dl.take(j as int));
        assert(dl.take(j + 1).last() == deleted@[j as int]@);
        match &deleted[j].start {
            Some(st) => {
                let key = to_local_datetime_in(st.as_str(), iana);
                put_member(&mut map, key, single_member("excluded", JsonValue::Bool(true)));
            },
            None => {},
        }
        j += 1;
    }
    assert(dl.take(j as int) =~= dl);
    proof { crate::json::lemma_entries_len(map@); }
    if map.len() == 0 {
        None
    } else {
        Some(JsonValue::Object(map))
    }
}

/// The JSCalendar event of an EWS calendar item: title, place, description,
/// times in the event's zone, keywords, participants, recurrence rule and
/// overrides.
pub fn to_jscalendar(raw: &CalendarItemRaw) -> (r: EventValue)
    requires
        participant_count(raw@) < u32::MAX,
    ensures
        r.data@ == event_json(raw@),
        !r.is_draft,
        !r.use_default_alerts,
{
    let mut event: Vec<(String, JsonValue)> = Vec::new();
    push_member(&mut event, "@type", json_string("Event"));
    let uid = match &raw.uid {
        Some(u) => u.clone(),
        None => {
            let mut u = "vandelay-ews-event-".to_owned();
            let h = blake3_hex(raw.id.id.as_str().as_bytes());
            u.append(h.as_str());
            u
        },
    };
    push_member(&mut event, "uid", JsonValue::Str(uid));
    let ghost head = entries_view(event@);
    assert(head =~= seq![("@type"@, jstr("Event"@)), ("uid"@, jstr(event_uid(raw@)))]) by {
        reveal_with_fuel(entries_view, 3);
    }
    add_opt_member(&mut event, "title", &raw.subject);
    add_locations(&mut event, raw);
    add_description(&mut event, raw);
    add_stamps(&mut event, raw);
    add_keywords(&mut event, &raw.categories);
    let iana: Option<String> = match &raw.start_tz {
        Some(tz) => Some(match windows_to_iana(tz.as_str()) {
            Some(z) => z.to_owned(),
            None => tz.clone(),
        }),
        None => None,
    };
    let iana_ref: Option<&str> = match &iana {
        Some(z) => Some(z.as_str()),
        None => None,
    };
    add_time(&mut event, raw, iana_ref);
    add_free_busy(&mut event, raw);
    add_participants(&mut event, raw);
    add_rules(&mut event, raw);
    let ghost before_overrides = entries_view(event@);
    match build_recurrence_overrides(&raw.modified_occurrences, &raw.deleted_occurrences, iana_ref) {
        Some(v) => {
            push_member(&mut event, "recurrenceOverrides", v);
        },
        None => {},
    }
    assert(entries_view(event@) =~= before_overrides + override_members(raw@));
    assert(entries_view(event@) =~= seq![("@type"@, jstr("Event"@)), ("uid"@, jstr(event_uid(raw@)))] + opt_member(
        "title"@,
        raw@.subject,
    ) + location_members(raw@) + description_members(raw@) + stamp_members(raw@) + keyword_members(raw@.categories)
        + time_members(raw@) + free_busy_members(raw@) + participant_members(raw@) + rule_members(raw@)
        + override_members(raw@));
    EventValue { data: JsonValue::Object(event), is_draft: false, use_default_alerts: false }
}

// ---------------------------------------------------------------------------
// Laws

/// An all-day event lasts at least one day.
pub proof fn law_all_day_lasts_a_day(raw: CalendarV)
    ensures
        all_day_days(raw) >= 1,
{
}

/// Keywords name each category once, however often it repeats or in what
/// case it is written.
pub proof fn law_keywords_distinct(cats: Seq<Seq<char>>)
    ensures
        crate::json::distinct_keys(keyword_entries(cats)),
    decreases cats.len(),
{
    if cats.len() > 0 {
        law_keywords_distinct(cats.drop_last());
        crate::json::law_put_keeps_names_distinct(keyword_entries(cats.drop_last()), lower_seq(cats.last()), JsonV::Bool(true));
    }
}

/// A time stamp is kept as written (zone dropped) when the event has no zone:
/// a floating event stays floating.
pub proof fn law_no_zone_stays_floating(s: Seq<char>)
    ensures
        local_in(s, None) == wall_text(trimmed(s), ""@),
{
}

/// An attendee who gave a response carries, as its last member, the
/// participation status that the EWS response type names: Accept and
/// Organizer are accepted, Tentative tentative, Decline declined, anything
/// else needs-action; only Accept or Organizer ever read as accepted.
pub proof fn law_participation_follows_response(a: AttendeeV, required: bool)
    requires
        a.response_type is Some,
    ensures
        attendee_json(a, required) matches JsonV::Object(m) && m.len() > 0 && m.last().0
            == "participationStatus"@ && {
            let rt = a.response_type->Some_0;
            let st = m.last().1;
            &&& (rt == "Accept"@ || rt == "Organizer"@) ==> st == JsonV::Str("accepted"@)
            &&& rt == "Tentative"@ ==> st == JsonV::Str("tentative"@)
            &&& rt == "Decline"@ ==> st == JsonV::Str("declined"@)
            &&& (rt != "Accept"@ && rt != "Organizer"@ && rt != "Tentative"@ && rt != "Decline"@) ==> st
                == JsonV::Str("needs-action"@)
            &&& st == JsonV::Str("accepted"@) ==> (rt == "Accept"@ || rt == "Organizer"@)
        },
{
    reveal_strlit("Accept");
    reveal_strlit("Organizer");
    reveal_strlit("Tentative");
    reveal_strlit("Decline");
    reveal_strlit("accepted");
    reveal_strlit("tentative");
    reveal_strlit("declined");
    reveal_strlit("needs-action");
    assert("Accept"@.len() == 6);
    assert("Organizer"@.len() == 9);
    assert("Tentative"@.len() == 9);
    assert("Decline"@.len() == 7);
    assert("Organizer"@[0] != "Tentative"@[0]);
    assert("accepted"@.len() == 8);
    assert("tentative"@.len() == 9);
    assert("declined"@.len() == 8);
    assert("needs-action"@.len() == 12);
    assert("accepted"@[0] != "declined"@[0]);
}

/// An event's free/busy status is free exactly where the EWS legacy status is
/// `Free`, busy for any other status, and absent where there is none.
pub proof fn law_free_busy_follows_status(raw: CalendarV)
    ensures
        raw.legacy_free_busy_status is None <==> free_busy_members(raw).len() == 0,
        raw.legacy_free_busy_status matches Some(st) ==> free_busy_members(raw) == seq![
            ("freeBusyStatus"@, JsonV::Str(if st == "Free"@ { "free"@ } else { "busy"@ })),
        ],
        free_busy_members(raw).len() > 0 ==> (free_busy_members(raw)[0].1 == JsonV::Str("free"@)
            <==> raw.legacy_free_busy_status == Some("Free"@)),
{
    reveal_strlit("free");
    reveal_strlit("busy");
    assert("free"@[0] != "busy"@[0]);
}

/// Every event is typed `Event`, carries its own uid where it has one, and
/// its subject as its title.
pub proof fn law_event_head(raw: CalendarV)
    ensures
        event_json(raw) matches JsonV::Object(m) && {
            &&& m.len() >= 2
            &&& m[0] == ("@type"@, JsonV::Str("Event"@))
            &&& m[1].0 == "uid"@
            &&& (raw.uid matches Some(u) ==> m[1].1 == JsonV::Str(u))
            &&& (raw.subject matches Some(s) ==> m.len() >= 3 && m[2] == ("title"@, JsonV::Str(s)))
        },
{
}

proof fn lemma_attendee_entries_numbered(list: Seq<AttendeeV>, first: nat, required: bool)
    ensures
        attendee_entries(list, first, required).len() == list.len(),
        forall|j: int| 0 <= j < list.len() ==> #[trigger] attendee_entries(list, first, required)[j] == (
            decimal((first + j) as nat),
            attendee_json(list[j], required),
        ),
    decreases list.len(),
{
    if list.len() > 0 {
        lemma_attendee_entries_numbered(list.drop_last(), first, required);
        assert forall|j: int| 0 <= j < list.len() implies #[trigger] attendee_entries(list, first, required)[j] == (
            decimal((first + j) as nat),
            attendee_json(list[j], required),
        ) by {
            if j < list.len() - 1 {
                assert(list.drop_last()[j] == list[j]);
            }
        }
    }
}

/// The participants are numbered 1, 2, … in order, one for each person: the
/// organizer first (as owner and chair), then the required and the optional
/// attendees, each in the order the item lists them.
pub proof fn law_participants_numbered_in_order(raw: CalendarV)
    ensures
        participant_entries(raw).len() == participant_count(raw),
        forall|k: int| 0 <= k < participant_entries(raw).len() ==> #[trigger] participant_entries(raw)[k].0
            == decimal((k + 1) as nat),
        raw.organizer_smtp matches Some(e) ==> participant_entries(raw)[0] == ("1"@, organizer_json(
            e,
            raw.organizer_name,
        )),
        ({
            let org = if raw.organizer_smtp is Some { 1int } else { 0int };
            &&& forall|j: int| 0 <= j < raw.required_attendees.len() ==> #[trigger] participant_entries(raw)[org + j].1
                == attendee_json(raw.required_attendees[j], true)
            &&& forall|j: int| 0 <= j < raw.optional_attendees.len() ==> #[trigger] participant_entries(raw)[org
                + raw.required_attendees.len() + j].1 == attendee_json(raw.optional_attendees[j], false)
        }),
{
    let org: Members = match raw.organizer_smtp {
        Some(email) => seq![("1"@, organizer_json(email, raw.organizer_name))],
        None => Seq::empty(),
    };
    let first = org.len() + 1;
    lemma_attendee_entries_numbered(raw.required_attendees, first, true);
    lemma_attendee_entries_numbered(raw.optional_attendees, first + raw.required_attendees.len(), false);
    reveal_strlit("1");
    assert(decimal(1) == "1"@) by {
        reveal_with_fuel(decimal, 2);
    }
}
} // verus!
