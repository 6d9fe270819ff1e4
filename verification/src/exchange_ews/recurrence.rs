//! EWS recurrences as JSCalendar recurrence rules.
use vstd::prelude::*;
use crate::exchange_ews::parse::{PatternV, RangeV, RawRecurrence, RecurrencePattern, RecurrenceRange, RecurrenceV};
use crate::json::{
    entries_view, items_view, jstr, push_item, push_member, json_string, single, single_member, JsonV,
    JsonValue,
};
use crate::text::{contains_seq, decimal, decimal_string, lower_seq, str_contains, str_eq, to_lower};

verus! {

/// The JSCalendar day token of an EWS day name or abbreviation, in any case.
pub open spec fn day_token_of(d: Seq<char>) -> Option<Seq<char>> {
    let l = lower_seq(d);
    if l == "monday"@ || l == "mo"@ {
        Some("mo"@)
    } else if l == "tuesday"@ || l == "tu"@ {
        Some("tu"@)
    } else if l == "wednesday"@ || l == "we"@ {
        Some("we"@)
    } else if l == "thursday"@ || l == "th"@ {
        Some("th"@)
    } else if l == "friday"@ || l == "fr"@ {
        Some("fr"@)
    } else if l == "saturday"@ || l == "sa"@ {
        Some("sa"@)
    } else if l == "sunday"@ || l == "su"@ {
        Some("su"@)
    } else {
        None
    }
}

fn day_token(d: &str) -> (r: Option<&'static str>)
    ensures
        crate::imap::automap::str_opt(r) == day_token_of(d@),
{
    let l = to_lower(d);
    let l = l.as_str();
    proof {
        reveal_strlit("mo");
        reveal_strlit("tu");
        reveal_strlit("we");
        reveal_strlit("th");
        reveal_strlit("fr");
        reveal_strlit("sa");
        reveal_strlit("su");
    }
    if str_eq(l, "monday") || str_eq(l, "mo") {
        Some("mo")
    } else if str_eq(l, "tuesday") || str_eq(l, "tu") {
        Some("tu")
    } else if str_eq(l, "wednesday") || str_eq(l, "we") {
        Some("we")
    } else if str_eq(l, "thursday") || str_eq(l, "th") {
        Some("th")
    } else if str_eq(l, "friday") || str_eq(l, "fr") {
        Some("fr")
    } else if str_eq(l, "saturday") || str_eq(l, "sa") {
        Some("sa")
    } else if str_eq(l, "sunday") || str_eq(l, "su") {
        Some("su")
    } else {
        None
    }
}

/// The position within the period that an EWS `DayOfWeekIndex` names.
pub open spec fn nth_of(index: Seq<char>) -> Option<int> {
    if index == "First"@ {
        Some(1)
    } else if index == "Second"@ {
        Some(2)
    } else if index == "Third"@ {
        Some(3)
    } else if index == "Fourth"@ {
        Some(4)
    } else if index == "Last"@ {
        Some(-1)
    } else {
        None
    }
}

fn nth_of_period(index: &str) -> (r: Option<i64>)
    ensures
        match r {
            Some(n) => nth_of(index@) == Some(n as int),
            None => nth_of(index@) is None,
        },
{
    if str_eq(index, "First") {
        Some(1)
    } else if str_eq(index, "Second") {
        Some(2)
    } else if str_eq(index, "Third") {
        Some(3)
    } else if str_eq(index, "Fourth") {
        Some(4)
    } else if str_eq(index, "Last") {
        Some(-1)
    } else {
        None
    }
}

/// The number of an English month name.
pub open spec fn month_of(m: Seq<char>) -> Option<nat> {
    if m == "January"@ {
        Some(1)
    } else if m == "February"@ {
        Some(2)
    } else if m == "March"@ {
        Some(3)
    } else if m == "April"@ {
        Some(4)
    } else if m == "May"@ {
        Some(5)
    } else if m == "June"@ {
        Some(6)
    } else if m == "July"@ {
        Some(7)
    } else if m == "August"@ {
        Some(8)
    } else if m == "September"@ {
        Some(9)
    } else if m == "October"@ {
        Some(10)
    } else if m == "November"@ {
        Some(11)
    } else if m == "December"@ {
        Some(12)
    } else {
        None
    }
}

fn month_number(m: &str) -> (r: Option<u64>)
    ensures
        match r {
            Some(n) => month_of(m@) == Some(n as nat),
            None => month_of(m@) is None,
        },
{
    if str_eq(m, "January") {
        Some(1)
    } else if str_eq(m, "February") {
        Some(2)
    } else if str_eq(m, "March") {
        Some(3)
    } else if str_eq(m, "April") {
        Some(4)
    } else if str_eq(m, "May") {
        Some(5)
    } else if str_eq(m, "June") {
        Some(6)
    } else if str_eq(m, "July") {
        Some(7)
    } else if str_eq(m, "August") {
        Some(8)
    } else if str_eq(m, "September") {
        Some(9)
    } else if str_eq(m, "October") {
        Some(10)
    } else if str_eq(m, "November") {
        Some(11)
    } else if str_eq(m, "December") {
        Some(12)
    } else {
        None
    }
}

pub type Members = Seq<(Seq<char>, JsonV)>;

/// `interval`, written only when above 1.
pub open spec fn interval_members(interval: u32) -> Members {
    if interval > 1 { seq![("interval"@, JsonV::Number(interval as int))] } else { Seq::empty() }
}

/// `{"day": token}` for each day with a token, in order.
pub open spec fn weekly_days(days: Seq<Seq<char>>) -> Seq<JsonV>
    decreases days.len(),
{
    if days.len() == 0 {
        Seq::empty()
    } else {
        let rest = weekly_days(days.drop_last());
        match day_token_of(days.last()) {
            Some(t) => rest.push(single("day"@, jstr(t))),
            None => rest,
        }
    }
}

/// `{"day": token, "nthOfPeriod": n}` for each day with a token, in order;
/// the position only where the index names one.
pub open spec fn relative_days(days: Seq<Seq<char>>, nth: Option<int>) -> Seq<JsonV>
    decreases days.len(),
{
    if days.len() == 0 {
        Seq::empty()
    } else {
        let rest = relative_days(days.drop_last(), nth);
        match day_token_of(days.last()) {
            Some(t) => rest.push(match nth {
                Some(n) => JsonV::Object(seq![("day"@, jstr(t)), ("nthOfPeriod"@, JsonV::Number(n))]),
                None => single("day"@, jstr(t)),
            }),
            None => rest,
        }
    }
}

/// `byDay`, written only when some day has a token.
pub open spec fn by_day_members(days: Seq<JsonV>) -> Members {
    if days.len() > 0 { seq![("byDay"@, JsonV::Array(days))] } else { Seq::empty() }
}

/// `byMonth`, written only for a known month name.
pub open spec fn by_month_members(month: Seq<char>) -> Members {
    match month_of(month) {
        Some(n) => seq![("byMonth"@, JsonV::Array(seq![jstr(decimal(n))]))],
        None => Seq::empty(),
    }
}

pub open spec fn by_month_day_members(day: u32) -> Members {
    seq![("byMonthDay"@, JsonV::Array(seq![JsonV::Number(day as int)]))]
}

pub open spec fn frequency(f: Seq<char>) -> Members {
    seq![("frequency"@, jstr(f))]
}

/// The members that a pattern gives.
pub open spec fn pattern_members(p: PatternV) -> Members {
    match p {
        PatternV::Daily { interval } => frequency("daily"@) + interval_members(interval),
        PatternV::Weekly { interval, days_of_week } => frequency("weekly"@) + interval_members(interval)
            + by_day_members(weekly_days(days_of_week)),
        PatternV::AbsoluteMonthly { interval, day_of_month } => frequency("monthly"@) + interval_members(interval)
            + by_month_day_members(day_of_month),
        PatternV::RelativeMonthly { interval, day_of_week_index, days_of_week } => frequency("monthly"@)
            + interval_members(interval) + by_day_members(relative_days(days_of_week, nth_of(day_of_week_index))),
        PatternV::AbsoluteYearly { month, day_of_month } => frequency("yearly"@) + by_month_members(month)
            + by_month_day_members(day_of_month),
        PatternV::RelativeYearly { month, day_of_week_index, days_of_week } => frequency("yearly"@)
            + by_month_members(month) + by_day_members(relative_days(days_of_week, nth_of(day_of_week_index))),
    }
}

/// The local end of a range: a date alone runs to the end of that day.
pub open spec fn until_of(end_date: Seq<char>) -> Seq<char> {
    if contains_seq(end_date, "T"@) { end_date } else { end_date + "T23:59:59"@ }
}

/// The members that a range gives: `until` or `count`; nothing for no end.
pub open spec fn range_members(r: Option<RangeV>) -> Members {
    match r {
        Some(RangeV::EndDate { end_date, .. }) => seq![("until"@, jstr(until_of(end_date)))],
        Some(RangeV::Numbered { number_of_occurrences, .. }) => seq![("count"@, JsonV::Number(number_of_occurrences as int))],
        _ => Seq::empty(),
    }
}

/// The JSCalendar rule of a recurrence; none without a pattern.
pub open spec fn rule_of(r: RecurrenceV) -> Option<JsonV> {
    match r.pattern {
        Some(p) => Some(JsonV::Object(pattern_members(p) + range_members(r.range))),
        None => None,
    }
}

pub open spec fn opt_json_view(j: Option<JsonValue>) -> Option<JsonV> {
    match j {
        Some(v) => Some(v@),
        None => None,
    }
}


fn add_frequency(o: &mut Vec<(String, JsonValue)>, f: &str)
    ensures
        entries_view(final(o)@) == entries_view(old(o)@) + frequency(f@),
{
    let ghost before = entries_view(o@);
    push_member(o, "frequency", json_string(f));
    assert(entries_view(o@) =~= before + frequency(f@));
}

fn add_interval(o: &mut Vec<(String, JsonValue)>, interval: u32)
    ensures
        entries_view(final(o)@) == entries_view(old(o)@) + interval_members(interval),
{
    let ghost before = entries_view(o@);
    if interval > 1 {
        push_member(o, "interval", JsonValue::Number(interval as i64));
        assert(entries_view(o@) =~= before + interval_members(interval));
    } else {
        assert(entries_view(o@) =~= before + interval_members(interval));
    }
}

fn add_by_month_day(o: &mut Vec<(String, JsonValue)>, day: u32)
    ensures
        entries_view(final(o)@) == entries_view(old(o)@) + by_month_day_members(day),
{
    let ghost before = entries_view(o@);
    let mut a: Vec<JsonValue> = Vec::new();
    push_item(&mut a, JsonValue::Number(day as i64));
    assert(items_view(a@) =~= seq![JsonV::Number(day as int)]) by {
        reveal_with_fuel(items_view, 2);
    }
    push_member(o, "byMonthDay", JsonValue::Array(a));
    assert(entries_view(o@) =~= before + by_month_day_members(day));
}

fn add_by_month(o: &mut Vec<(String, JsonValue)>, month: &str)
    ensures
        entries_view(final(o)@) == entries_view(old(o)@) + by_month_members(month@),
{
    let ghost before = entries_view(o@);
    match month_number(month) {
        Some(n) => {
            let mut a: Vec<JsonValue> = Vec::new();
            push_item(&mut a, JsonValue::Str(decimal_string(n)));
            assert(items_view(a@) =~= seq![jstr(decimal(n as nat))]) by {
                reveal_with_fuel(items_view, 2);
            }
            push_member(o, "byMonth", JsonValue::Array(a));
            assert(entries_view(o@) =~= before + by_month_members(month@));
        },
        None => {
            assert(entries_view(o@) =~= before + by_month_members(month@));
        },
    }
}

fn add_by_day(o: &mut Vec<(String, JsonValue)>, days: Vec<JsonValue>)
    ensures
        entries_view(final(o)@) == entries_view(old(o)@) + by_day_members(items_view(days@)),
{
    let ghost before = entries_view(o@);
    let ghost dv = items_view(days@);
    if days.len() > 0 {
        proof { crate::json::lemma_items_len(days@); }
        push_member(o, "byDay", JsonValue::Array(days));
        assert(entries_view(o@) =~= before + by_day_members(dv));
    } else {
        proof { crate::json::lemma_items_len(days@); }
        assert(entries_view(o@) =~= before + by_day_members(dv));
    }
}

fn weekly_day_items(days: &Vec<String>) -> (r: Vec<JsonValue>)
    ensures
        items_view(r@) == weekly_days(crate::exchange_ews::parse::strings_view(days@)),
{
    let ghost s = crate::exchange_ews::parse::strings_view(days@);
    let mut out: Vec<JsonValue> = Vec::new();
    let mut i: usize = 0;
    assert(s.take(0) =~= Seq::<Seq<char>>::empty());
    while i < days.len()
        invariant
            s == crate::exchange_ews::parse::strings_view(days@),
            s.len() == days@.len(),
            i <= days@.len(),
            items_view(out@) == weekly_days(s.take(i as int)),
        decreases days.len() - i,
    {
        assert(s.take(i + 1).drop_last() =~= s.take(i as int));
        assert(s.take(i + 1).last() == days@[i as int]@);
        match day_token(days[i].as_str()) {
            Some(t) => {
                push_item(&mut out, single_member("day", json_string(t)));
            },
            None => {},
        }
        i += 1;
    }
    assert(s.take(i as int) =~= s);
    out
}

fn relative_day_items(days: &Vec<String>, nth: Option<i64>) -> (r: Vec<JsonValue>)
    ensures
        items_view(r@) == relative_days(crate::exchange_ews::parse::strings_view(days@), match nth {
            Some(n) => Some(n as int),
            None => None,
        }),
{
    let ghost s = crate::exchange_ews::parse::strings_view(days@);
    let ghost nv: Option<int> = match nth {
        Some(n) => Some(n as int),
        None => None,
    };
    let mut out: Vec<JsonValue> = Vec::new();
    let mut i: usize = 0;
    assert(s.take(0) =~= Seq::<Seq<char>>::empty());
    while i < days.len()
        invariant
            s == crate::exchange_ews::parse::strings_view(days@),
            s.len() == days@.len(),
            i <= days@.len(),
            nv == (match nth {
                Some(n) => Some(n as int),
                None => None,
            }),
            items_view(out@) == relative_days(s.take(i as int), nv),
        decreases days.len() - i,
    {
        assert(s.take(i + 1).drop_last() =~= s.take(i as int));
        assert(s.take(i + 1).last() == days@[i as int]@);
        match day_token(days[i].as_str()) {
            Some(t) => {
                match nth {
                    Some(n) => {
                        let mut o: Vec<(String, JsonValue)> = Vec::new();
                        push_member(&mut o, "day", json_string(t));
                        push_member(&mut o, "nthOfPeriod", JsonValue::Number(n));
                        assert(entries_view(o@) =~= seq![("day"@, jstr(t@)), ("nthOfPeriod"@, JsonV::Number(n as int))]) by {
                            reveal_with_fuel(entries_view, 3);
                        }
                        push_item(&mut out, JsonValue::Object(o));
                    },
                    None => {
                        push_item(&mut out, single_member("day", json_string(t)));
                    },
                }
            },
            None => {},
        }
        i += 1;
    }
    assert(s.take(i as int) =~= s);
    out
}

fn add_range(o: &mut Vec<(String, JsonValue)>, r: &Option<RecurrenceRange>)
    ensures
        entries_view(final(o)@) == entries_view(old(o)@) + range_members(match r {
            Some(x) => Some(x@),
            None => None,
        }),
{
    let ghost before = entries_view(o@);
    match r {
        Some(RecurrenceRange::EndDate { end_date, .. }) => {
            let until = if str_contains(end_date.as_str(), "T") {
                end_date.clone()
            } else {
                let mut u = end_date.clone();
                u.append("T23:59:59");
                u
            };
            push_member(o, "until", JsonValue::Str(until));
        },
        Some(RecurrenceRange::Numbered { number_of_occurrences, .. }) => {
            push_member(o, "count", JsonValue::Number(*number_of_occurrences as i64));
        },
        _ => {},
    }
    assert(entries_view(o@) =~= before + range_members(match r {
        Some(x) => Some(x@),
        None => None,
    }));
}

/// The JSCalendar recurrence rule of an EWS recurrence: its frequency,
/// interval, days, month and day of month, and its end; none without a
/// pattern.
pub fn to_jscalendar_rule(raw: &RawRecurrence) -> (r: Option<JsonValue>)
    ensures
        opt_json_view(r) == rule_of(raw@),
{
    let pattern = match &raw.pattern {
        Some(p) => p,
        None => {
            return None;
        },
    };
    let mut o: Vec<(String, JsonValue)> = Vec::new();
    assert(entries_view(o@) =~= Seq::<(Seq<char>, JsonV)>::empty());
    match pattern {
        RecurrencePattern::Daily { interval } => {
            add_frequency(&mut o, "daily");
            add_interval(&mut o, *interval);
        },
        RecurrencePattern::Weekly { interval, days_of_week } => {
            add_frequency(&mut o, "weekly");
            add_interval(&mut o, *interval);
            add_by_day(&mut o, weekly_day_items(days_of_week));
        },
        RecurrencePattern::AbsoluteMonthly { interval, day_of_month } => {
            add_frequency(&mut o, "monthly");
            add_interval(&mut o, *interval);
            add_by_month_day(&mut o, *day_of_month);
        },
        RecurrencePattern::RelativeMonthly { interval, day_of_week_index, days_of_week } => {
            add_frequency(&mut o, "monthly");
            add_interval(&mut o, *interval);
            let nth = nth_of_period(day_of_week_index.as_str());
            add_by_day(&mut o, relative_day_items(days_of_week, nth));
        },
        RecurrencePattern::AbsoluteYearly { month, day_of_month } => {
            add_frequency(&mut o, "yearly");
            add_by_month(&mut o, month.as_str());
            add_by_month_day(&mut o, *day_of_month);
        },
        RecurrencePattern::RelativeYearly { month, day_of_week_index, days_of_week } => {
            add_frequency(&mut o, "yearly");
            add_by_month(&mut o, month.as_str());
            let nth = nth_of_period(day_of_week_index.as_str());
            add_by_day(&mut o, relative_day_items(days_of_week, nth));
        },
    }
    let ghost pm = entries_view(o@);
    assert(pm =~= pattern_members(pattern@));
    add_range(&mut o, &raw.range);
    Some(JsonValue::Object(o))
}

/// A recurrence gives a rule exactly when it has a pattern, and the rule
/// always states a frequency first.
pub proof fn law_rule_exactly_with_pattern(r: RecurrenceV)
    ensures
        rule_of(r) is Some <==> r.pattern is Some,
        rule_of(r) matches Some(JsonV::Object(m)) ==> m.len() > 0 && m[0].0 == "frequency"@,
{
}

/// A day's name, full or in two letters and in any case, gives that day's
/// two-letter token, and only that day's name gives it; no other text gives a
/// token.
pub proof fn law_day_names_give_their_tokens(d: Seq<char>)
    ensures
        (lower_seq(d) == "monday"@ || lower_seq(d) == "mo"@) <==> day_token_of(d) == Some("mo"@),
        (lower_seq(d) == "tuesday"@ || lower_seq(d) == "tu"@) <==> day_token_of(d) == Some("tu"@),
        (lower_seq(d) == "wednesday"@ || lower_seq(d) == "we"@) <==> day_token_of(d) == Some("we"@),
        (lower_seq(d) == "thursday"@ || lower_seq(d) == "th"@) <==> day_token_of(d) == Some("th"@),
        (lower_seq(d) == "friday"@ || lower_seq(d) == "fr"@) <==> day_token_of(d) == Some("fr"@),
        (lower_seq(d) == "saturday"@ || lower_seq(d) == "sa"@) <==> day_token_of(d) == Some("sa"@),
        (lower_seq(d) == "sunday"@ || lower_seq(d) == "su"@) <==> day_token_of(d) == Some("su"@),
        day_token_of(d) is Some ==> (lower_seq(d) == "monday"@ || lower_seq(d) == "mo"@
            || lower_seq(d) == "tuesday"@ || lower_seq(d) == "tu"@
            || lower_seq(d) == "wednesday"@ || lower_seq(d) == "we"@
            || lower_seq(d) == "thursday"@ || lower_seq(d) == "th"@
            || lower_seq(d) == "friday"@ || lower_seq(d) == "fr"@
            || lower_seq(d) == "saturday"@ || lower_seq(d) == "sa"@
            || lower_seq(d) == "sunday"@ || lower_seq(d) == "su"@),
{
    reveal_strlit("monday");
    reveal_strlit("mo");
    reveal_strlit("tuesday");
    reveal_strlit("tu");
    reveal_strlit("wednesday");
    reveal_strlit("we");
    reveal_strlit("thursday");
    reveal_strlit("th");
    reveal_strlit("friday");
    reveal_strlit("fr");
    reveal_strlit("saturday");
    reveal_strlit("sa");
    reveal_strlit("sunday");
    reveal_strlit("su");
    assert("monday"@.len() == 6 && "monday"@[0] == 'm');
    assert("mo"@.len() == 2 && "mo"@[0] == 'm' && "mo"@[1] == 'o');
    assert("tuesday"@.len() == 7 && "tuesday"@[0] == 't');
    assert("tu"@.len() == 2 && "tu"@[0] == 't' && "tu"@[1] == 'u');
    assert("wednesday"@.len() == 9 && "wednesday"@[0] == 'w');
    assert("we"@.len() == 2 && "we"@[0] == 'w' && "we"@[1] == 'e');
    assert("thursday"@.len() == 8 && "thursday"@[0] == 't');
    assert("th"@.len() == 2 && "th"@[0] == 't' && "th"@[1] == 'h');
    assert("friday"@.len() == 6 && "friday"@[0] == 'f');
    assert("fr"@.len() == 2 && "fr"@[0] == 'f' && "fr"@[1] == 'r');
    assert("saturday"@.len() == 8 && "saturday"@[0] == 's');
    assert("sa"@.len() == 2 && "sa"@[0] == 's' && "sa"@[1] == 'a');
    assert("sunday"@.len() == 6 && "sunday"@[0] == 's');
    assert("su"@.len() == 2 && "su"@[0] == 's' && "su"@[1] == 'u');
}

/// Each English month name gives its number in the calendar, January 1 to
/// December 12, and only that name gives it; no other text gives a number.
pub proof fn law_month_names_give_their_numbers(m: Seq<char>)
    ensures
        m == "January"@ <==> month_of(m) == Some(1nat),
        m == "February"@ <==> month_of(m) == Some(2nat),
        m == "March"@ <==> month_of(m) == Some(3nat),
        m == "April"@ <==> month_of(m) == Some(4nat),
        m == "May"@ <==> month_of(m) == Some(5nat),
        m == "June"@ <==> month_of(m) == Some(6nat),
        m == "July"@ <==> month_of(m) == Some(7nat),
        m == "August"@ <==> month_of(m) == Some(8nat),
        m == "September"@ <==> month_of(m) == Some(9nat),
        m == "October"@ <==> month_of(m) == Some(10nat),
        m == "November"@ <==> month_of(m) == Some(11nat),
        m == "December"@ <==> month_of(m) == Some(12nat),
        month_of(m) matches Some(n) ==> 1 <= n <= 12,
{
    reveal_strlit("January");
    reveal_strlit("February");
    reveal_strlit("March");
    reveal_strlit("April");
    reveal_strlit("May");
    reveal_strlit("June");
    reveal_strlit("July");
    reveal_strlit("August");
    reveal_strlit("September");
    reveal_strlit("October");
    reveal_strlit("November");
    reveal_strlit("December");
    assert("January"@.len() == 7 && "January"@[0] == 'J' && "January"@[2] == 'n');
    assert("February"@.len() == 8 && "February"@[0] == 'F' && "February"@[2] == 'b');
    assert("March"@.len() == 5 && "March"@[0] == 'M' && "March"@[2] == 'r');
    assert("April"@.len() == 5 && "April"@[0] == 'A' && "April"@[2] == 'r');
    assert("May"@.len() == 3 && "May"@[0] == 'M' && "May"@[2] == 'y');
    assert("June"@.len() == 4 && "June"@[0] == 'J' && "June"@[2] == 'n');
    assert("July"@.len() == 4 && "July"@[0] == 'J' && "July"@[2] == 'l');
    assert("August"@.len() == 6 && "August"@[0] == 'A' && "August"@[2] == 'g');
    assert("September"@.len() == 9 && "September"@[0] == 'S' && "September"@[2] == 'p');
    assert("October"@.len() == 7 && "October"@[0] == 'O' && "October"@[2] == 't');
    assert("November"@.len() == 8 && "November"@[0] == 'N' && "November"@[2] == 'v');
    assert("December"@.len() == 8 && "December"@[0] == 'D' && "December"@[2] == 'c');
}

/// A rule's frequency follows the kind of its pattern: daily, weekly, monthly
/// (absolute or relative) or yearly (absolute or relative); for the daily,
/// weekly and monthly kinds an interval above 1 follows it, and none
/// otherwise.
pub proof fn law_frequency_follows_pattern(p: PatternV)
    ensures
        pattern_members(p).len() > 0,
        pattern_members(p)[0].0 == "frequency"@,
        p is Daily ==> pattern_members(p)[0].1 == JsonV::Str("daily"@),
        p is Weekly ==> pattern_members(p)[0].1 == JsonV::Str("weekly"@),
        (p is AbsoluteMonthly || p is RelativeMonthly) ==> pattern_members(p)[0].1 == JsonV::Str("monthly"@),
        (p is AbsoluteYearly || p is RelativeYearly) ==> pattern_members(p)[0].1 == JsonV::Str("yearly"@),
        match p {
            PatternV::Daily { interval } => interval > 1 <==> (pattern_members(p).len() > 1
                && pattern_members(p)[1] == ("interval"@, JsonV::Number(interval as int))),
            PatternV::Weekly { interval, .. } => interval > 1 <==> (pattern_members(p).len() > 1
                && pattern_members(p)[1] == ("interval"@, JsonV::Number(interval as int))),
            PatternV::AbsoluteMonthly { interval, .. } => interval > 1 <==> (pattern_members(p).len() > 1
                && pattern_members(p)[1] == ("interval"@, JsonV::Number(interval as int))),
            PatternV::RelativeMonthly { interval, .. } => interval > 1 <==> (pattern_members(p).len() > 1
                && pattern_members(p)[1] == ("interval"@, JsonV::Number(interval as int))),
            _ => true,
        },
{
    reveal_strlit("interval");
    reveal_strlit("byDay");
    reveal_strlit("byMonthDay");
    assert("interval"@.len() == 8);
    assert("byDay"@.len() == 5);
    assert("byMonthDay"@.len() == 10);
}

/// A rule ends as its range says: after the given number of occurrences, or
/// at its end date (the end of that day where the date has no time), and not
/// at all for a range without an end or no range.
pub proof fn law_range_ends_the_rule(r: Option<RangeV>)
    ensures
        r matches Some(RangeV::Numbered { number_of_occurrences, .. }) ==> range_members(r) == seq![
            ("count"@, JsonV::Number(number_of_occurrences as int)),
        ],
        r matches Some(RangeV::EndDate { end_date, .. }) ==> {
            &&& range_members(r).len() == 1
            &&& range_members(r)[0].0 == "until"@
            &&& contains_seq(end_date, "T"@) ==> range_members(r)[0].1 == JsonV::Str(end_date)
            &&& !contains_seq(end_date, "T"@) ==> range_members(r)[0].1 == JsonV::Str(end_date + "T23:59:59"@)
        },
        (r is None || r matches Some(RangeV::NoEnd { .. })) ==> range_members(r).len() == 0,
{
}

/// The `DayOfWeekIndex` of a relative pattern; empty for the others.
pub open spec fn relative_index(p: PatternV) -> Seq<char> {
    match p {
        PatternV::RelativeMonthly { day_of_week_index, .. } => day_of_week_index,
        PatternV::RelativeYearly { day_of_week_index, .. } => day_of_week_index,
        _ => Seq::empty(),
    }
}

/// The `nthOfPeriod` of the `k`-th entry of a `byDay` array, where that entry
/// is a day with a position.
pub open spec fn nth_at(by_day: JsonV, k: int) -> Option<int> {
    match by_day {
        JsonV::Array(a) => if 0 <= k < a.len() {
            match a[k] {
                JsonV::Object(m) => if m.len() == 2 && m[0].0 == "day"@ && m[1].0 == "nthOfPeriod"@ {
                    match m[1].1 {
                        JsonV::Number(n) => Some(n),
                        _ => None,
                    }
                } else {
                    None
                },
                _ => None,
            }
        } else {
            None
        },
        _ => None,
    }
}

proof fn lemma_relative_days_entry(days: Seq<Seq<char>>, nth: Option<int>, k: int)
    requires
        0 <= k < relative_days(days, nth).len(),
    ensures
        nth_at(JsonV::Array(relative_days(days, nth)), k) == nth,
    decreases days.len(),
{
    reveal_strlit("day");
    reveal_strlit("nthOfPeriod");
    assert("day"@.len() == 3);
    assert("nthOfPeriod"@.len() == 11);
    let rest = relative_days(days.drop_last(), nth);
    if k < rest.len() {
        lemma_relative_days_entry(days.drop_last(), nth, k);
    }
}

proof fn lemma_ordinal_names()
    ensures
        nth_of("First"@) == Some(1int),
        nth_of("Second"@) == Some(2int),
        nth_of("Third"@) == Some(3int),
        nth_of("Fourth"@) == Some(4int),
        nth_of("Last"@) == Some(-1int),
{
    reveal_strlit("First");
    reveal_strlit("Second");
    reveal_strlit("Third");
    reveal_strlit("Fourth");
    reveal_strlit("Last");
    assert("First"@.len() == 5);
    assert("Second"@.len() == 6);
    assert("Third"@.len() == 5);
    assert("Fourth"@.len() == 6);
    assert("Last"@.len() == 4);
    assert("First"@[0] != "Third"@[0]);
    assert("Second"@[0] != "Fourth"@[0]);
}

/// In a relative monthly or yearly rule, every `byDay` entry carries as
/// `nthOfPeriod` the position that the pattern's `DayOfWeekIndex` names
/// (First 1, Second 2, Third 3, Fourth 4, Last -1); under any other index no
/// entry carries a position.
pub proof fn law_relative_days_carry_position(p: PatternV, j: int)
    requires
        p is RelativeMonthly || p is RelativeYearly,
        0 <= j < pattern_members(p).len(),
        pattern_members(p)[j].0 == "byDay"@,
    ensures
        pattern_members(p)[j].1 is Array,
        forall|k: int| #![trigger nth_at(pattern_members(p)[j].1, k)] 0 <= k < pattern_members(p)[j].1->Array_0.len() ==> {
            let by_day = pattern_members(p)[j].1;
            &&& relative_index(p) == "First"@ ==> nth_at(by_day, k) == Some(1int)
            &&& relative_index(p) == "Second"@ ==> nth_at(by_day, k) == Some(2int)
            &&& relative_index(p) == "Third"@ ==> nth_at(by_day, k) == Some(3int)
            &&& relative_index(p) == "Fourth"@ ==> nth_at(by_day, k) == Some(4int)
            &&& relative_index(p) == "Last"@ ==> nth_at(by_day, k) == Some(-1int)
            &&& (relative_index(p) != "First"@ && relative_index(p) != "Second"@ && relative_index(p)
                != "Third"@ && relative_index(p) != "Fourth"@ && relative_index(p) != "Last"@) ==> nth_at(
                by_day,
                k,
            ) is None
        },
{
    reveal_strlit("byDay");
    reveal_strlit("frequency");
    reveal_strlit("interval");
    reveal_strlit("byMonth");
    assert("byDay"@.len() == 5);
    assert("frequency"@.len() == 9);
    assert("interval"@.len() == 8);
    assert("byMonth"@.len() == 7);
    lemma_ordinal_names();
    let (head, days, nth) = match p {
        PatternV::RelativeMonthly { interval, day_of_week_index, days_of_week } => (
            frequency("monthly"@) + interval_members(interval),
            days_of_week,
            nth_of(day_of_week_index),
        ),
        PatternV::RelativeYearly { month, day_of_week_index, days_of_week } => (
            frequency("yearly"@) + by_month_members(month),
            days_of_week,
            nth_of(day_of_week_index),
        ),
        _ => (Seq::empty(), Seq::empty(), None),
    };
    let rd = relative_days(days, nth);
    assert(pattern_members(p) == head + by_day_members(rd));
    assert(nth == nth_of(relative_index(p)));
    if j < head.len() {
        assert(head[j].0 != "byDay"@);
    }
    assert(j >= head.len());
    assert(rd.len() > 0);
    assert(pattern_members(p)[j] == ("byDay"@, JsonV::Array(rd)));
    assert forall|k: int| 0 <= k < rd.len() implies nth_at(JsonV::Array(rd), k) == nth by {
        lemma_relative_days_entry(days, nth, k);
    }
}
} // verus!
