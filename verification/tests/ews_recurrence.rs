use vandelay::exchange_ews::parse::{RawRecurrence, RecurrencePattern, RecurrenceRange};
use vandelay::exchange_ews::recurrence::to_jscalendar_rule;
use vandelay::json::JsonValue;

fn rule_json(j: &JsonValue) -> serde_json::Value {
    match j {
        JsonValue::Null => serde_json::Value::Null,
        JsonValue::Bool(b) => serde_json::Value::Bool(*b),
        JsonValue::Number(n) => serde_json::Value::from(*n),
        JsonValue::OtherNumber(t) => serde_json::Value::Number(t.parse().unwrap()),
        JsonValue::Str(s) => serde_json::Value::String(s.clone()),
        JsonValue::Array(a) => serde_json::Value::Array(a.iter().map(rule_json).collect()),
        JsonValue::Object(o) => {
            let mut m = serde_json::Map::new();
            for (k, v) in o {
                m.insert(k.clone(), rule_json(v));
            }
            serde_json::Value::Object(m)
        }
    }
}

#[test]
fn daily_interval_round_trips() {
    let raw = RawRecurrence {
        pattern: Some(RecurrencePattern::Daily { interval: 3 }),
        range: Some(RecurrenceRange::Numbered {
            start_date: "2025-01-01".to_owned(),
            number_of_occurrences: 5,
        }),
    };
    let rule = rule_json(&to_jscalendar_rule(&raw).unwrap());
    assert_eq!(rule["frequency"], "daily");
    assert_eq!(rule["interval"], 3);
    assert_eq!(rule["count"], 5);
}

#[test]
fn relative_monthly_nth_of_period() {
    let raw = RawRecurrence {
        pattern: Some(RecurrencePattern::RelativeMonthly {
            interval: 1,
            day_of_week_index: "First".to_owned(),
            days_of_week: vec!["Monday".to_owned()],
        }),
        range: Some(RecurrenceRange::NoEnd {
            start_date: "2025-01-01".to_owned(),
        }),
    };
    let rule = rule_json(&to_jscalendar_rule(&raw).unwrap());
    assert_eq!(rule["frequency"], "monthly");
    let by_day = rule["byDay"].as_array().unwrap();
    assert_eq!(by_day[0]["day"], "mo");
    assert_eq!(by_day[0]["nthOfPeriod"], 1);
}

#[test]
fn relative_yearly_last_friday_in_june() {
    let raw = RawRecurrence {
        pattern: Some(RecurrencePattern::RelativeYearly {
            month: "June".to_owned(),
            day_of_week_index: "Last".to_owned(),
            days_of_week: vec!["Friday".to_owned()],
        }),
        range: Some(RecurrenceRange::NoEnd {
            start_date: "2020-01-01".to_owned(),
        }),
    };
    let rule = rule_json(&to_jscalendar_rule(&raw).unwrap());
    assert_eq!(rule["frequency"], "yearly");
    assert_eq!(rule["byMonth"][0], "6");
    assert_eq!(rule["byDay"][0]["day"], "fr");
    assert_eq!(rule["byDay"][0]["nthOfPeriod"], -1);
}

#[test]
fn absolute_monthly_translates_to_by_month_day() {
    let raw = RawRecurrence {
        pattern: Some(RecurrencePattern::AbsoluteMonthly {
            interval: 2,
            day_of_month: 15,
        }),
        range: Some(RecurrenceRange::NoEnd {
            start_date: "2025-01-15".to_owned(),
        }),
    };
    let rule = rule_json(&to_jscalendar_rule(&raw).unwrap());
    assert_eq!(rule["frequency"], "monthly");
    assert_eq!(rule["interval"], 2);
    assert_eq!(rule["byMonthDay"][0], 15);
}

#[test]
fn absolute_yearly_translates_to_by_month_and_day() {
    let raw = RawRecurrence {
        pattern: Some(RecurrencePattern::AbsoluteYearly {
            month: "January".to_owned(),
            day_of_month: 1,
        }),
        range: Some(RecurrenceRange::NoEnd {
            start_date: "2025-01-01".to_owned(),
        }),
    };
    let rule = rule_json(&to_jscalendar_rule(&raw).unwrap());
    assert_eq!(rule["frequency"], "yearly");
    assert_eq!(rule["byMonth"][0], "1");
    assert_eq!(rule["byMonthDay"][0], 1);
}

#[test]
fn no_end_range_emits_no_until_or_count() {
    let raw = RawRecurrence {
        pattern: Some(RecurrencePattern::Daily { interval: 1 }),
        range: Some(RecurrenceRange::NoEnd {
            start_date: "2025-01-01".to_owned(),
        }),
    };
    let rule = rule_json(&to_jscalendar_rule(&raw).unwrap());
    assert!(rule.get("until").is_none());
    assert!(rule.get("count").is_none());
}

#[test]
fn weekly_two_days() {
    let raw = RawRecurrence {
        pattern: Some(RecurrencePattern::Weekly {
            interval: 1,
            days_of_week: vec!["Monday".to_owned(), "Wednesday".to_owned()],
        }),
        range: Some(RecurrenceRange::EndDate {
            start_date: "2025-01-06".to_owned(),
            end_date: "2025-06-30".to_owned(),
        }),
    };
    let rule = rule_json(&to_jscalendar_rule(&raw).unwrap());
    assert_eq!(rule["frequency"], "weekly");
    assert_eq!(rule["until"], "2025-06-30T23:59:59");
    let by_day = rule["byDay"].as_array().unwrap();
    assert_eq!(by_day.len(), 2);
    assert_eq!(by_day[0]["day"], "mo");
    assert_eq!(by_day[1]["day"], "we");
}
