//! Windows time zone names and their IANA equivalents.

use vstd::prelude::*;
use crate::exchange_ews::types::{is_white_space, lead_ws, trail_end, trimmed};
use crate::text::{lower_char, lower_seq};
use crate::text::{eq_ignore_case, str_eq_ignore_case};

verus! {

/// The CLDR mapping from Windows zone names to IANA zone names, in lookup order.
pub open spec fn zone_table() -> Seq<(Seq<char>, Seq<char>)> {
    seq![
        ("UTC"@, "Etc/UTC"@),
        ("Coordinated Universal Time"@, "Etc/UTC"@),
        ("UTC-11"@, "Etc/GMT+11"@),
        ("UTC-09"@, "Etc/GMT+9"@),
        ("UTC-08"@, "Etc/GMT+8"@),
        ("UTC-02"@, "Etc/GMT+2"@),
        ("UTC+12"@, "Etc/GMT-12"@),
        ("UTC+13"@, "Etc/GMT-13"@),
        ("Dateline Standard Time"@, "Etc/GMT+12"@),
        ("Aleutian Standard Time"@, "America/Adak"@),
        ("Hawaiian Standard Time"@, "Pacific/Honolulu"@),
        ("Marquesas Standard Time"@, "Pacific/Marquesas"@),
        ("Alaskan Standard Time"@, "America/Anchorage"@),
        ("Pacific Standard Time (Mexico)"@, "America/Tijuana"@),
        ("Pacific Standard Time"@, "America/Los_Angeles"@),
        ("US Mountain Standard Time"@, "America/Phoenix"@),
        ("Mountain Standard Time (Mexico)"@, "America/Mazatlan"@),
        ("Mountain Standard Time"@, "America/Denver"@),
        ("Yukon Standard Time"@, "America/Whitehorse"@),
        ("Central America Standard Time"@, "America/Guatemala"@),
        ("Central Standard Time"@, "America/Chicago"@),
        ("Easter Island Standard Time"@, "Pacific/Easter"@),
        ("Central Standard Time (Mexico)"@, "America/Mexico_City"@),
        ("Canada Central Standard Time"@, "America/Regina"@),
        ("SA Pacific Standard Time"@, "America/Bogota"@),
        ("Eastern Standard Time (Mexico)"@, "America/Cancun"@),
        ("Eastern Standard Time"@, "America/New_York"@),
        ("Haiti Standard Time"@, "America/Port-au-Prince"@),
        ("Cuba Standard Time"@, "America/Havana"@),
        ("US Eastern Standard Time"@, "America/Indianapolis"@),
        ("Turks And Caicos Standard Time"@, "America/Grand_Turk"@),
        ("Paraguay Standard Time"@, "America/Asuncion"@),
        ("Atlantic Standard Time"@, "America/Halifax"@),
        ("Venezuela Standard Time"@, "America/Caracas"@),
        ("Central Brazilian Standard Time"@, "America/Cuiaba"@),
        ("SA Western Standard Time"@, "America/La_Paz"@),
        ("Pacific SA Standard Time"@, "America/Santiago"@),
        ("Newfoundland Standard Time"@, "America/St_Johns"@),
        ("Tocantins Standard Time"@, "America/Araguaina"@),
        ("E. South America Standard Time"@, "America/Sao_Paulo"@),
        ("SA Eastern Standard Time"@, "America/Cayenne"@),
        ("Argentina Standard Time"@, "America/Argentina/Buenos_Aires"@),
        ("Greenland Standard Time"@, "America/Godthab"@),
        ("Montevideo Standard Time"@, "America/Montevideo"@),
        ("Magallanes Standard Time"@, "America/Punta_Arenas"@),
        ("Saint Pierre Standard Time"@, "America/Miquelon"@),
        ("Bahia Standard Time"@, "America/Bahia"@),
        ("Mid-Atlantic Standard Time"@, "Atlantic/South_Georgia"@),
        ("Azores Standard Time"@, "Atlantic/Azores"@),
        ("Cape Verde Standard Time"@, "Atlantic/Cape_Verde"@),
        ("GMT Standard Time"@, "Europe/London"@),
        ("Greenwich Standard Time"@, "Atlantic/Reykjavik"@),
        ("Sao Tome Standard Time"@, "Africa/Sao_Tome"@),
        ("Morocco Standard Time"@, "Africa/Casablanca"@),
        ("W. Europe Standard Time"@, "Europe/Berlin"@),
        ("Central Europe Standard Time"@, "Europe/Budapest"@),
        ("Romance Standard Time"@, "Europe/Paris"@),
        ("Central European Standard Time"@, "Europe/Warsaw"@),
        ("W. Central Africa Standard Time"@, "Africa/Lagos"@),
        ("Jordan Standard Time"@, "Asia/Amman"@),
        ("GTB Standard Time"@, "Europe/Bucharest"@),
        ("Middle East Standard Time"@, "Asia/Beirut"@),
        ("Egypt Standard Time"@, "Africa/Cairo"@),
        ("E. Europe Standard Time"@, "Europe/Chisinau"@),
        ("Syria Standard Time"@, "Asia/Damascus"@),
        ("West Bank Standard Time"@, "Asia/Hebron"@),
        ("South Africa Standard Time"@, "Africa/Johannesburg"@),
        ("FLE Standard Time"@, "Europe/Kiev"@),
        ("Israel Standard Time"@, "Asia/Jerusalem"@),
        ("South Sudan Standard Time"@, "Africa/Juba"@),
        ("Kaliningrad Standard Time"@, "Europe/Kaliningrad"@),
        ("Sudan Standard Time"@, "Africa/Khartoum"@),
        ("Libya Standard Time"@, "Africa/Tripoli"@),
        ("Namibia Standard Time"@, "Africa/Windhoek"@),
        ("Arabic Standard Time"@, "Asia/Baghdad"@),
        ("Turkey Standard Time"@, "Europe/Istanbul"@),
        ("Arab Standard Time"@, "Asia/Riyadh"@),
        ("Belarus Standard Time"@, "Europe/Minsk"@),
        ("Russian Standard Time"@, "Europe/Moscow"@),
        ("E. Africa Standard Time"@, "Africa/Nairobi"@),
        ("Iran Standard Time"@, "Asia/Tehran"@),
        ("Arabian Standard Time"@, "Asia/Dubai"@),
        ("Astrakhan Standard Time"@, "Europe/Astrakhan"@),
        ("Azerbaijan Standard Time"@, "Asia/Baku"@),
        ("Russia Time Zone 3"@, "Europe/Samara"@),
        ("Mauritius Standard Time"@, "Indian/Mauritius"@),
        ("Saratov Standard Time"@, "Europe/Saratov"@),
        ("Georgian Standard Time"@, "Asia/Tbilisi"@),
        ("Volgograd Standard Time"@, "Europe/Volgograd"@),
        ("Caucasus Standard Time"@, "Asia/Yerevan"@),
        ("Afghanistan Standard Time"@, "Asia/Kabul"@),
        ("West Asia Standard Time"@, "Asia/Tashkent"@),
        ("Ekaterinburg Standard Time"@, "Asia/Yekaterinburg"@),
        ("Pakistan Standard Time"@, "Asia/Karachi"@),
        ("Qyzylorda Standard Time"@, "Asia/Qyzylorda"@),
        ("India Standard Time"@, "Asia/Kolkata"@),
        ("Sri Lanka Standard Time"@, "Asia/Colombo"@),
        ("Nepal Standard Time"@, "Asia/Katmandu"@),
        ("Central Asia Standard Time"@, "Asia/Almaty"@),
        ("Bangladesh Standard Time"@, "Asia/Dhaka"@),
        ("Omsk Standard Time"@, "Asia/Omsk"@),
        ("Myanmar Standard Time"@, "Asia/Rangoon"@),
        ("SE Asia Standard Time"@, "Asia/Bangkok"@),
        ("Altai Standard Time"@, "Asia/Barnaul"@),
        ("W. Mongolia Standard Time"@, "Asia/Hovd"@),
        ("North Asia Standard Time"@, "Asia/Krasnoyarsk"@),
        ("N. Central Asia Standard Time"@, "Asia/Novosibirsk"@),
        ("Tomsk Standard Time"@, "Asia/Tomsk"@),
        ("China Standard Time"@, "Asia/Shanghai"@),
        ("North Asia East Standard Time"@, "Asia/Irkutsk"@),
        ("Singapore Standard Time"@, "Asia/Singapore"@),
        ("W. Australia Standard Time"@, "Australia/Perth"@),
        ("Taipei Standard Time"@, "Asia/Taipei"@),
        ("Ulaanbaatar Standard Time"@, "Asia/Ulaanbaatar"@),
        ("Aus Central W. Standard Time"@, "Australia/Eucla"@),
        ("Transbaikal Standard Time"@, "Asia/Chita"@),
        ("Tokyo Standard Time"@, "Asia/Tokyo"@),
        ("North Korea Standard Time"@, "Asia/Pyongyang"@),
        ("Korea Standard Time"@, "Asia/Seoul"@),
        ("Yakutsk Standard Time"@, "Asia/Yakutsk"@),
        ("Cen. Australia Standard Time"@, "Australia/Adelaide"@),
        ("AUS Central Standard Time"@, "Australia/Darwin"@),
        ("E. Australia Standard Time"@, "Australia/Brisbane"@),
        ("AUS Eastern Standard Time"@, "Australia/Sydney"@),
        ("West Pacific Standard Time"@, "Pacific/Port_Moresby"@),
        ("Tasmania Standard Time"@, "Australia/Hobart"@),
        ("Vladivostok Standard Time"@, "Asia/Vladivostok"@),
        ("Lord Howe Standard Time"@, "Australia/Lord_Howe"@),
        ("Bougainville Standard Time"@, "Pacific/Bougainville"@),
        ("Russia Time Zone 10"@, "Asia/Srednekolymsk"@),
        ("Magadan Standard Time"@, "Asia/Magadan"@),
        ("Norfolk Standard Time"@, "Pacific/Norfolk"@),
        ("Sakhalin Standard Time"@, "Asia/Sakhalin"@),
        ("Central Pacific Standard Time"@, "Pacific/Guadalcanal"@),
        ("Russia Time Zone 11"@, "Asia/Kamchatka"@),
        ("New Zealand Standard Time"@, "Pacific/Auckland"@),
        ("Fiji Standard Time"@, "Pacific/Fiji"@),
        ("Kamchatka Standard Time"@, "Asia/Kamchatka"@),
        ("Chatham Islands Standard Time"@, "Pacific/Chatham"@),
        ("Tonga Standard Time"@, "Pacific/Tongatapu"@),
        ("Samoa Standard Time"@, "Pacific/Apia"@),
        ("Line Islands Standard Time"@, "Pacific/Kiritimati"@)
    ]
}

pub open spec fn pairs_view(v: Seq<(&str, &str)>) -> Seq<(Seq<char>, Seq<char>)> {
    v.map_values(|p: (&str, &str)| (p.0@, p.1@))
}

fn table() -> (r: Vec<(&'static str, &'static str)>)
    ensures
        pairs_view(r@) == zone_table(),
{
    let v = vec![
        ("UTC", "Etc/UTC"),
        ("Coordinated Universal Time", "Etc/UTC"),
        ("UTC-11", "Etc/GMT+11"),
        ("UTC-09", "Etc/GMT+9"),
        ("UTC-08", "Etc/GMT+8"),
        ("UTC-02", "Etc/GMT+2"),
        ("UTC+12", "Etc/GMT-12"),
        ("UTC+13", "Etc/GMT-13"),
        ("Dateline Standard Time", "Etc/GMT+12"),
        ("Aleutian Standard Time", "America/Adak"),
        ("Hawaiian Standard Time", "Pacific/Honolulu"),
        ("Marquesas Standard Time", "Pacific/Marquesas"),
        ("Alaskan Standard Time", "America/Anchorage"),
        ("Pacific Standard Time (Mexico)", "America/Tijuana"),
        ("Pacific Standard Time", "America/Los_Angeles"),
        ("US Mountain Standard Time", "America/Phoenix"),
        ("Mountain Standard Time (Mexico)", "America/Mazatlan"),
        ("Mountain Standard Time", "America/Denver"),
        ("Yukon Standard Time", "America/Whitehorse"),
        ("Central America Standard Time", "America/Guatemala"),
        ("Central Standard Time", "America/Chicago"),
        ("Easter Island Standard Time", "Pacific/Easter"),
        ("Central Standard Time (Mexico)", "America/Mexico_City"),
        ("Canada Central Standard Time", "America/Regina"),
        ("SA Pacific Standard Time", "America/Bogota"),
        ("Eastern Standard Time (Mexico)", "America/Cancun"),
        ("Eastern Standard Time", "America/New_York"),
        ("Haiti Standard Time", "America/Port-au-Prince"),
        ("Cuba Standard Time", "America/Havana"),
        ("US Eastern Standard Time", "America/Indianapolis"),
        ("Turks And Caicos Standard Time", "America/Grand_Turk"),
        ("Paraguay Standard Time", "America/Asuncion"),
        ("Atlantic Standard Time", "America/Halifax"),
        ("Venezuela Standard Time", "America/Caracas"),
        ("Central Brazilian Standard Time", "America/Cuiaba"),
        ("SA Western Standard Time", "America/La_Paz"),
        ("Pacific SA Standard Time", "America/Santiago"),
        ("Newfoundland Standard Time", "America/St_Johns"),
        ("Tocantins Standard Time", "America/Araguaina"),
        ("E. South America Standard Time", "America/Sao_Paulo"),
        ("SA Eastern Standard Time", "America/Cayenne"),
        ("Argentina Standard Time", "America/Argentina/Buenos_Aires"),
        ("Greenland Standard Time", "America/Godthab"),
        ("Montevideo Standard Time", "America/Montevideo"),
        ("Magallanes Standard Time", "America/Punta_Arenas"),
        ("Saint Pierre Standard Time", "America/Miquelon"),
        ("Bahia Standard Time", "America/Bahia"),
        ("Mid-Atlantic Standard Time", "Atlantic/South_Georgia"),
        ("Azores Standard Time", "Atlantic/Azores"),
        ("Cape Verde Standard Time", "Atlantic/Cape_Verde"),
        ("GMT Standard Time", "Europe/London"),
        ("Greenwich Standard Time", "Atlantic/Reykjavik"),
        ("Sao Tome Standard Time", "Africa/Sao_Tome"),
        ("Morocco Standard Time", "Africa/Casablanca"),
        ("W. Europe Standard Time", "Europe/Berlin"),
        ("Central Europe Standard Time", "Europe/Budapest"),
        ("Romance Standard Time", "Europe/Paris"),
        ("Central European Standard Time", "Europe/Warsaw"),
        ("W. Central Africa Standard Time", "Africa/Lagos"),
        ("Jordan Standard Time", "Asia/Amman"),
        ("GTB Standard Time", "Europe/Bucharest"),
        ("Middle East Standard Time", "Asia/Beirut"),
        ("Egypt Standard Time", "Africa/Cairo"),
        ("E. Europe Standard Time", "Europe/Chisinau"),
        ("Syria Standard Time", "Asia/Damascus"),
        ("West Bank Standard Time", "Asia/Hebron"),
        ("South Africa Standard Time", "Africa/Johannesburg"),
        ("FLE Standard Time", "Europe/Kiev"),
        ("Israel Standard Time", "Asia/Jerusalem"),
        ("South Sudan Standard Time", "Africa/Juba"),
        ("Kaliningrad Standard Time", "Europe/Kaliningrad"),
        ("Sudan Standard Time", "Africa/Khartoum"),
        ("Libya Standard Time", "Africa/Tripoli"),
        ("Namibia Standard Time", "Africa/Windhoek"),
        ("Arabic Standard Time", "Asia/Baghdad"),
        ("Turkey Standard Time", "Europe/Istanbul"),
        ("Arab Standard Time", "Asia/Riyadh"),
        ("Belarus Standard Time", "Europe/Minsk"),
        ("Russian Standard Time", "Europe/Moscow"),
        ("E. Africa Standard Time", "Africa/Nairobi"),
        ("Iran Standard Time", "Asia/Tehran"),
        ("Arabian Standard Time", "Asia/Dubai"),
        ("Astrakhan Standard Time", "Europe/Astrakhan"),
        ("Azerbaijan Standard Time", "Asia/Baku"),
        ("Russia Time Zone 3", "Europe/Samara"),
        ("Mauritius Standard Time", "Indian/Mauritius"),
        ("Saratov Standard Time", "Europe/Saratov"),
        ("Georgian Standard Time", "Asia/Tbilisi"),
        ("Volgograd Standard Time", "Europe/Volgograd"),
        ("Caucasus Standard Time", "Asia/Yerevan"),
        ("Afghanistan Standard Time", "Asia/Kabul"),
        ("West Asia Standard Time", "Asia/Tashkent"),
        ("Ekaterinburg Standard Time", "Asia/Yekaterinburg"),
        ("Pakistan Standard Time", "Asia/Karachi"),
        ("Qyzylorda Standard Time", "Asia/Qyzylorda"),
        ("India Standard Time", "Asia/Kolkata"),
        ("Sri Lanka Standard Time", "Asia/Colombo"),
        ("Nepal Standard Time", "Asia/Katmandu"),
        ("Central Asia Standard Time", "Asia/Almaty"),
        ("Bangladesh Standard Time", "Asia/Dhaka"),
        ("Omsk Standard Time", "Asia/Omsk"),
        ("Myanmar Standard Time", "Asia/Rangoon"),
        ("SE Asia Standard Time", "Asia/Bangkok"),
        ("Altai Standard Time", "Asia/Barnaul"),
        ("W. Mongolia Standard Time", "Asia/Hovd"),
        ("North Asia Standard Time", "Asia/Krasnoyarsk"),
        ("N. Central Asia Standard Time", "Asia/Novosibirsk"),
        ("Tomsk Standard Time", "Asia/Tomsk"),
        ("China Standard Time", "Asia/Shanghai"),
        ("North Asia East Standard Time", "Asia/Irkutsk"),
        ("Singapore Standard Time", "Asia/Singapore"),
        ("W. Australia Standard Time", "Australia/Perth"),
        ("Taipei Standard Time", "Asia/Taipei"),
        ("Ulaanbaatar Standard Time", "Asia/Ulaanbaatar"),
        ("Aus Central W. Standard Time", "Australia/Eucla"),
        ("Transbaikal Standard Time", "Asia/Chita"),
        ("Tokyo Standard Time", "Asia/Tokyo"),
        ("North Korea Standard Time", "Asia/Pyongyang"),
        ("Korea Standard Time", "Asia/Seoul"),
        ("Yakutsk Standard Time", "Asia/Yakutsk"),
        ("Cen. Australia Standard Time", "Australia/Adelaide"),
        ("AUS Central Standard Time", "Australia/Darwin"),
        ("E. Australia Standard Time", "Australia/Brisbane"),
        ("AUS Eastern Standard Time", "Australia/Sydney"),
        ("West Pacific Standard Time", "Pacific/Port_Moresby"),
        ("Tasmania Standard Time", "Australia/Hobart"),
        ("Vladivostok Standard Time", "Asia/Vladivostok"),
        ("Lord Howe Standard Time", "Australia/Lord_Howe"),
        ("Bougainville Standard Time", "Pacific/Bougainville"),
        ("Russia Time Zone 10", "Asia/Srednekolymsk"),
        ("Magadan Standard Time", "Asia/Magadan"),
        ("Norfolk Standard Time", "Pacific/Norfolk"),
        ("Sakhalin Standard Time", "Asia/Sakhalin"),
        ("Central Pacific Standard Time", "Pacific/Guadalcanal"),
        ("Russia Time Zone 11", "Asia/Kamchatka"),
        ("New Zealand Standard Time", "Pacific/Auckland"),
        ("Fiji Standard Time", "Pacific/Fiji"),
        ("Kamchatka Standard Time", "Asia/Kamchatka"),
        ("Chatham Islands Standard Time", "Pacific/Chatham"),
        ("Tonga Standard Time", "Pacific/Tongatapu"),
        ("Samoa Standard Time", "Pacific/Apia"),
        ("Line Islands Standard Time", "Pacific/Kiritimati")
    ];
    assert(pairs_view(v@) =~= zone_table());
    v
}

/// The number of zones the table maps.
pub fn table_len() -> (r: usize)
    ensures
        r == zone_table().len(),
{
    table().len()
}

/// The IANA zone of the first table row whose Windows name equals the trimmed
/// `name`, ignoring case.
pub open spec fn zone_lookup(t: Seq<(Seq<char>, Seq<char>)>, key: Seq<char>, n: int) -> Option<Seq<char>>
    decreases n,
{
    if n <= 0 {
        None
    } else {
        match zone_lookup(t, key, n - 1) {
            Some(z) => Some(z),
            None => if eq_ignore_case(t[n - 1].0, key) {
                Some(t[n - 1].1)
            } else {
                None
            },
        }
    }
}

fn trim_str(s: &str) -> (r: String)
    ensures
        r@ == trimmed(s@),
{
    crate::exchange_ews::types::trim_chars(s)
}

pub fn windows_to_iana(windows_name: &str) -> (r: Option<&'static str>)
    ensures
        crate::imap::automap::str_opt(r) == zone_lookup(zone_table(), trimmed(windows_name@), zone_table().len() as int),
{
    let key = trim_str(windows_name);
    let t = table();
    let mut i: usize = 0;
    while i < t.len()
        invariant
            pairs_view(t@) == zone_table(),
            key@ == trimmed(windows_name@),
            i <= t@.len(),
            zone_lookup(zone_table(), key@, i as int) is None,
        decreases t.len() - i,
    {
        let (w, z) = t[i];
        if str_eq_ignore_case(w, key.as_str()) {
            assert(zone_table()[i as int] == (w@, z@));
            proof {
                lemma_lookup_found(zone_table(), key@, i as int + 1, zone_table().len() as int);
            }
            return Some(z);
        }
        assert(zone_table()[i as int].0 == w@);
        i += 1;
    }
    None
}

proof fn lemma_lookup_found(t: Seq<(Seq<char>, Seq<char>)>, key: Seq<char>, k: int, n: int)
    requires
        0 <= k <= n,
    ensures
        zone_lookup(t, key, k) is Some ==> zone_lookup(t, key, n) == zone_lookup(t, key, k),
    decreases n - k,
{
    if k < n {
        lemma_lookup_found(t, key, k, n - 1);
    }
}


proof fn lemma_lower_char(c: char)
    ensures
        is_white_space(lower_char(c)) == is_white_space(c),
        lower_char(lower_char(c)) == lower_char(c),
{
    if 'A' <= c && c <= 'Z' {
        let u = (c as u32) + 32;
        assert(((u as char) as u32) == u);
    }
}

proof fn lemma_lead_lower(s: Seq<char>, i: int)
    ensures
        lead_ws(lower_seq(s), i) == lead_ws(s, i),
    decreases s.len() - i,
{
    if 0 <= i < s.len() {
        lemma_lower_char(s[i]);
        lemma_lead_lower(s, i + 1);
    }
}

proof fn lemma_trail_lower(s: Seq<char>, j: int, lo: int)
    requires
        0 <= lo,
    ensures
        trail_end(lower_seq(s), j, lo) == trail_end(s, j, lo),
    decreases j - lo,
{
    if lo < j && j <= s.len() {
        lemma_lower_char(s[j - 1]);
        assert(lower_seq(s)[j - 1] == lower_char(s[j - 1]));
        lemma_trail_lower(s, j - 1, lo);
    }
}

/// Lowering ASCII letters and trimming white space commute.
proof fn lemma_trim_lower(s: Seq<char>)
    ensures
        trimmed(lower_seq(s)) == lower_seq(trimmed(s)),
        lower_seq(lower_seq(s)) == lower_seq(s),
{
    lemma_lead_lower(s, 0);
    let a = lead_ws(s, 0);
    crate::exchange_ews::types::lemma_lead_ws(s, 0);
    lemma_trail_lower(s, s.len() as int, a);
    crate::exchange_ews::types::lemma_trail_end(s, s.len() as int, a);
    assert(trimmed(lower_seq(s)) =~= lower_seq(trimmed(s)));
    assert forall|i: int| 0 <= i < s.len() implies lower_seq(lower_seq(s))[i] == lower_seq(s)[i] by {
        lemma_lower_char(s[i]);
    }
    assert(lower_seq(lower_seq(s)) =~= lower_seq(s));
}

proof fn lemma_lead_all_space(x: Seq<char>, i: int)
    requires
        0 <= i <= x.len(),
        forall|k: int| i <= k < x.len() ==> is_white_space(#[trigger] x[k]),
    ensures
        lead_ws(x, i) == x.len(),
    decreases x.len() - i,
{
    if i < x.len() {
        lemma_lead_all_space(x, i + 1);
    }
}

proof fn lemma_lead_skip(x: Seq<char>, i: int, m: int)
    requires
        0 <= i <= m <= x.len(),
        forall|k: int| i <= k < m ==> is_white_space(#[trigger] x[k]),
    ensures
        lead_ws(x, i) == lead_ws(x, m),
    decreases m - i,
{
    if i < m {
        lemma_lead_skip(x, i + 1, m);
    }
}

proof fn lemma_lead_shift(pre: Seq<char>, s: Seq<char>, post: Seq<char>, k: int)
    requires
        0 <= k <= s.len(),
        forall|i: int| 0 <= i < post.len() ==> is_white_space(#[trigger] post[i]),
    ensures
        lead_ws(s, k) < s.len() ==> lead_ws(pre + s + post, pre.len() + k) == pre.len() + lead_ws(s, k),
        lead_ws(s, k) >= s.len() ==> lead_ws(pre + s + post, pre.len() + k) == (pre + s + post).len(),
    decreases s.len() - k,
{
    let x = pre + s + post;
    if k < s.len() {
        assert(x[pre.len() + k] == s[k]);
        lemma_lead_shift(pre, s, post, k + 1);
    } else {
        assert forall|i: int| pre.len() + s.len() <= i < x.len() implies is_white_space(#[trigger] x[i]) by {
            assert(x[i] == post[i - pre.len() - s.len()]);
        }
        lemma_lead_all_space(x, (pre.len() + s.len()) as int);
    }
}

proof fn lemma_trail_skip(x: Seq<char>, j: int, m: int, lo: int)
    requires
        lo <= m <= j <= x.len(),
        forall|k: int| m <= k < j ==> is_white_space(#[trigger] x[k]),
    ensures
        trail_end(x, j, lo) == trail_end(x, m, lo),
    decreases j - m,
{
    if m < j {
        lemma_trail_skip(x, j - 1, m, lo);
    }
}

proof fn lemma_trail_shift(pre: Seq<char>, s: Seq<char>, post: Seq<char>, k: int, a: int)
    requires
        0 <= a <= k <= s.len(),
    ensures
        trail_end(pre + s + post, pre.len() + k, pre.len() + a) == pre.len() + trail_end(s, k, a),
    decreases k - a,
{
    if a < k {
        assert((pre + s + post)[pre.len() + k - 1] == s[k - 1]);
        lemma_trail_shift(pre, s, post, k - 1, a);
    }
}

/// White space around a text does not change it once trimmed.
proof fn lemma_trim_padded(pre: Seq<char>, s: Seq<char>, post: Seq<char>)
    requires
        forall|i: int| 0 <= i < pre.len() ==> is_white_space(#[trigger] pre[i]),
        forall|i: int| 0 <= i < post.len() ==> is_white_space(#[trigger] post[i]),
    ensures
        trimmed(pre + s + post) == trimmed(s),
{
    let x = pre + s + post;
    assert forall|k: int| 0 <= k < pre.len() implies is_white_space(#[trigger] x[k]) by {
        assert(x[k] == pre[k]);
    }
    lemma_lead_skip(x, 0, pre.len() as int);
    lemma_lead_shift(pre, s, post, 0);
    crate::exchange_ews::types::lemma_lead_ws(s, 0);
    let a = lead_ws(s, 0);
    if a < s.len() {
        assert forall|k: int| pre.len() + s.len() <= k < x.len() implies is_white_space(#[trigger] x[k]) by {
            assert(x[k] == post[k - pre.len() - s.len()]);
        }
        lemma_trail_skip(x, x.len() as int, (pre.len() + s.len()) as int, pre.len() + a);
        lemma_trail_shift(pre, s, post, s.len() as int, a);
        crate::exchange_ews::types::lemma_trail_end(s, s.len() as int, a);
        assert(x.subrange(pre.len() + a, pre.len() + trail_end(s, s.len() as int, a))
            =~= s.subrange(a, trail_end(s, s.len() as int, a)));
    } else {
        assert(trimmed(x) =~= Seq::<char>::empty());
        assert(trimmed(s) =~= Seq::<char>::empty());
    }
}

proof fn lemma_lookup_by_lowered_key(t: Seq<(Seq<char>, Seq<char>)>, k1: Seq<char>, k2: Seq<char>, n: int)
    requires
        lower_seq(k1) == lower_seq(k2),
    ensures
        zone_lookup(t, k1, n) == zone_lookup(t, k2, n),
    decreases n,
{
    if n > 0 {
        lemma_lookup_by_lowered_key(t, k1, k2, n - 1);
    }
}

/// A zone lookup ignores ASCII case and white space around the name: the
/// name lower-cased, or padded with white space, finds what the name finds.
pub proof fn law_zone_lookup_ignores_case_and_space(name: Seq<char>, pre: Seq<char>, post: Seq<char>)
    requires
        forall|i: int| 0 <= i < pre.len() ==> is_white_space(#[trigger] pre[i]),
        forall|i: int| 0 <= i < post.len() ==> is_white_space(#[trigger] post[i]),
    ensures
        zone_lookup(zone_table(), trimmed(lower_seq(name)), zone_table().len() as int)
            == zone_lookup(zone_table(), trimmed(name), zone_table().len() as int),
        zone_lookup(zone_table(), trimmed(pre + name + post), zone_table().len() as int)
            == zone_lookup(zone_table(), trimmed(name), zone_table().len() as int),
{
    lemma_trim_lower(name);
    lemma_trim_lower(trimmed(name));
    lemma_lookup_by_lowered_key(zone_table(), trimmed(lower_seq(name)), trimmed(name), zone_table().len() as int);
    lemma_trim_padded(pre, name, post);
}

} // verus!
