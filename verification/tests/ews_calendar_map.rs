use vandelay::exchange_ews::calendar_map::{
    all_day_span_days, duration_iso8601, normalise_utc_datetime, to_jscalendar, to_local_datetime_in,
};
use vandelay::exchange_ews::parse::{
    CalendarItemRaw, RawAttendee, RawOccurrence, RawRecurrence, RecurrencePattern, RecurrenceRange,
};
use vandelay::json::JsonValue;

fn event_json(j: &JsonValue) -> serde_json::Value {
    match j {
        JsonValue::Null => serde_json::Value::Null,
        JsonValue::Bool(b) => serde_json::Value::Bool(*b),
        JsonValue::Number(n) => serde_json::Value::from(*n),
        JsonValue::OtherNumber(t) => serde_json::Value::Number(t.parse().unwrap()),
        JsonValue::Str(s) => serde_json::Value::String(s.clone()),
        JsonValue::Array(a) => serde_json::Value::Array(a.iter().map(event_json).collect()),
        JsonValue::Object(o) => {
            let mut m = serde_json::Map::new();
            for (k, v) in o {
                m.insert(k.clone(), event_json(v));
            }
            serde_json::Value::Object(m)
        }
    }
}


#[test]
fn simple_event_round_trip_converts_utc_to_local_wall_clock() {
    let raw = CalendarItemRaw {
        uid: Some("uid-1".to_owned()),
        subject: Some("Meeting".to_owned()),
        start: Some("2025-06-15T14:00:00Z".to_owned()),
        end: Some("2025-06-15T15:00:00Z".to_owned()),
        location: Some("HQ".to_owned()),
        start_tz: Some("Pacific Standard Time".to_owned()),
        ..CalendarItemRaw::default()
    };
    let v = event_json(&to_jscalendar(&raw).data);
    assert_eq!(v["@type"], "Event");
    assert_eq!(v["uid"], "uid-1");
    assert_eq!(v["title"], "Meeting");
    assert_eq!(v["start"], "2025-06-15T07:00:00");
    assert_eq!(v["duration"], "PT1H");
    assert_eq!(v["timeZone"], "America/Los_Angeles");
    assert_eq!(v["locations"]["1"]["name"], "HQ");
}

#[test]
fn naive_start_without_timezone_stays_floating() {
    let raw = CalendarItemRaw {
        uid: Some("uid-naive".to_owned()),
        start: Some("2025-06-15T14:00:00".to_owned()),
        end: Some("2025-06-15T15:00:00".to_owned()),
        ..CalendarItemRaw::default()
    };
    let v = event_json(&to_jscalendar(&raw).data);
    assert_eq!(v["start"], "2025-06-15T14:00:00");
    assert!(v.get("timeZone").is_none());
}

#[test]
fn unknown_windows_timezone_passes_through_verbatim() {
    let raw = CalendarItemRaw {
        uid: Some("uid-x".to_owned()),
        start: Some("2025-06-15T14:00:00Z".to_owned()),
        end: Some("2025-06-15T15:00:00Z".to_owned()),
        start_tz: Some("Made Up Time".to_owned()),
        ..CalendarItemRaw::default()
    };
    let v = event_json(&to_jscalendar(&raw).data);
    assert_eq!(v["start"], "2025-06-15T14:00:00");
    assert_eq!(v["timeZone"], "Made Up Time");
}

#[test]
fn recurrence_override_key_uses_local_time_in_event_timezone() {
    let raw = CalendarItemRaw {
        uid: Some("uid-tz".to_owned()),
        start: Some("2025-06-15T21:00:00Z".to_owned()),
        end: Some("2025-06-15T22:00:00Z".to_owned()),
        start_tz: Some("Pacific Standard Time".to_owned()),
        recurrence: Some(RawRecurrence {
            pattern: Some(RecurrencePattern::Daily { interval: 1 }),
            range: Some(RecurrenceRange::Numbered {
                start_date: "2025-06-15".to_owned(),
                number_of_occurrences: 3,
            }),
        }),
        deleted_occurrences: vec![RawOccurrence {
            item_id: Default::default(),
            start: Some("2025-06-16T21:00:00Z".to_owned()),
            end: None,
            original_start: None,
        }],
        ..CalendarItemRaw::default()
    };
    let v = event_json(&to_jscalendar(&raw).data);
    let over = v["recurrenceOverrides"].as_object().unwrap();
    assert!(over.contains_key("2025-06-16T14:00:00"));
}

#[test]
fn all_day_event_uses_date_only_start() {
    let raw = CalendarItemRaw {
        uid: Some("uid-2".to_owned()),
        subject: Some("Holiday".to_owned()),
        is_all_day_event: Some(true),
        start: Some("2025-12-25T00:00:00".to_owned()),
        end: Some("2025-12-26T00:00:00".to_owned()),
        ..CalendarItemRaw::default()
    };
    let v = event_json(&to_jscalendar(&raw).data);
    assert_eq!(v["start"], "2025-12-25T00:00:00");
    assert_eq!(v["showWithoutTime"], true);
    assert_eq!(v["duration"], "P1D");
    assert!(v.get("timeZone").is_none());
}

#[test]
fn recurring_master_with_overrides() {
    let raw = CalendarItemRaw {
        uid: Some("uid-3".to_owned()),
        start: Some("2025-06-15T14:00:00Z".to_owned()),
        end: Some("2025-06-15T15:00:00Z".to_owned()),
        recurrence: Some(RawRecurrence {
            pattern: Some(RecurrencePattern::Daily { interval: 1 }),
            range: Some(RecurrenceRange::Numbered {
                start_date: "2025-06-15".to_owned(),
                number_of_occurrences: 3,
            }),
        }),
        modified_occurrences: vec![RawOccurrence {
            item_id: Default::default(),
            start: Some("2025-06-16T15:00:00Z".to_owned()),
            end: Some("2025-06-16T16:30:00Z".to_owned()),
            original_start: Some("2025-06-16T14:00:00Z".to_owned()),
        }],
        deleted_occurrences: vec![RawOccurrence {
            item_id: Default::default(),
            start: Some("2025-06-17T14:00:00Z".to_owned()),
            end: None,
            original_start: None,
        }],
        ..CalendarItemRaw::default()
    };
    let v = event_json(&to_jscalendar(&raw).data);
    assert_eq!(v["recurrenceRules"][0]["frequency"], "daily");
    assert_eq!(v["recurrenceRules"][0]["count"], 3);
    let over = v["recurrenceOverrides"].as_object().unwrap();
    assert!(over.contains_key("2025-06-16T14:00:00"));
    assert_eq!(over["2025-06-17T14:00:00"]["excluded"], true);
}

#[test]
fn multi_day_all_day_spans_correct_number_of_days() {
    let raw = CalendarItemRaw {
        uid: Some("uid-multi".to_owned()),
        is_all_day_event: Some(true),
        start: Some("2025-07-04T00:00:00".to_owned()),
        end: Some("2025-07-07T00:00:00".to_owned()),
        ..CalendarItemRaw::default()
    };
    let v = event_json(&to_jscalendar(&raw).data);
    assert_eq!(v["duration"], "P3D");
    assert_eq!(v["showWithoutTime"], true);
}

#[test]
fn attendees_get_required_or_optional_role() {
    let raw = CalendarItemRaw {
        uid: Some("uid-att".to_owned()),
        start: Some("2025-06-15T14:00:00Z".to_owned()),
        end: Some("2025-06-15T15:00:00Z".to_owned()),
        organizer_smtp: Some("alice@x".to_owned()),
        required_attendees: vec![RawAttendee {
            email: Some("bob@x".to_owned()),
            name: None,
            response_type: Some("Accept".to_owned()),
        }],
        optional_attendees: vec![RawAttendee {
            email: Some("eve@x".to_owned()),
            name: None,
            response_type: None,
        }],
        ..CalendarItemRaw::default()
    };
    let v = event_json(&to_jscalendar(&raw).data);
    assert_eq!(v["organizerCalendarAddress"], "mailto:alice@x");
    let participants = v["participants"].as_object().unwrap();
    let required = participants
        .values()
        .find(|p| p["email"] == "bob@x")
        .unwrap();
    assert_eq!(required["roles"]["required"], true);
    assert!(required["roles"].get("optional").is_none());
    let optional = participants
        .values()
        .find(|p| p["email"] == "eve@x")
        .unwrap();
    assert_eq!(optional["roles"]["optional"], true);
}

#[test]
fn all_day_span_helper_is_inclusive_of_start() {
    assert_eq!(all_day_span_days("2025-07-04", "2025-07-04"), 1);
    assert_eq!(all_day_span_days("2025-07-04", "2025-07-05"), 1);
    assert_eq!(all_day_span_days("2025-07-04", "2025-07-07"), 3);
    assert_eq!(all_day_span_days("bad", "input"), 1);
}

#[test]
fn durations_and_time_stamps_are_rendered() {
    assert_eq!(duration_iso8601("2025-06-15T14:00:00Z", "2025-06-15T15:30:05Z").as_deref(), Some("PT1H30M5S"));
    assert_eq!(duration_iso8601("2025-06-15T14:00:00Z", "2025-06-15T14:00:00Z").as_deref(), Some("PT0S"));
    assert_eq!(duration_iso8601("2025-06-15T14:00:00Z", "2025-06-15T13:00:00Z"), None);
    assert_eq!(duration_iso8601("garbage", "2025-06-15T13:00:00Z"), None);
    assert_eq!(normalise_utc_datetime(" 2025-06-15T14:00:00.123Z "), "2025-06-15T14:00:00Z");
    assert_eq!(normalise_utc_datetime("2025-06-15T14:00:00+02:00"), "2025-06-15T14:00:00Z");
    assert_eq!(normalise_utc_datetime("2025-06-15"), "2025-06-15T00:00:00Z");
    assert_eq!(to_local_datetime_in("2025-06-15T14:00:00Z", Some("Europe/Paris")), "2025-06-15T16:00:00");
    assert_eq!(to_local_datetime_in("2025-06-15T14:00:00Z", None), "2025-06-15T14:00:00");
    assert_eq!(to_local_datetime_in("2025-06-15T14:00:00Z", Some("Not/AZone")), "2025-06-15T14:00:00");
}

#[test]
fn span_days_handles_month_and_year_boundaries() {
    assert_eq!(all_day_span_days("2025-07-30", "2025-08-02"), 3);
    assert_eq!(all_day_span_days("2024-12-31T00:00:00", "2025-01-01T00:00:00"), 1);
    assert_eq!(all_day_span_days("2025-01-10", "2025-01-03"), 1);
    assert_eq!(all_day_span_days("2025-01", "2025-01-03"), 1);
}

#[test]
fn fallback_uid_and_free_busy_and_html_body() {
    let raw = CalendarItemRaw {
        id: vandelay::exchange_ews::types::ItemId::new("ID-1", ""),
        body_html: Some("<b>x</b>".to_owned()),
        legacy_free_busy_status: Some("Free".to_owned()),
        categories: vec!["Work".to_owned(), "work".to_owned()],
        ..CalendarItemRaw::default()
    };
    let v = event_json(&to_jscalendar(&raw).data);
    assert!(v["uid"].as_str().unwrap().starts_with("vandelay-ews-event-"));
    assert_eq!(v["uid"].as_str().unwrap().len(), "vandelay-ews-event-".len() + 64);
    assert_eq!(v["description"], "<b>x</b>");
    assert_eq!(v["descriptionContentType"], "text/html");
    assert_eq!(v["freeBusyStatus"], "free");
    assert_eq!(v["keywords"].as_object().unwrap().len(), 1);
    assert_eq!(v["keywords"]["work"], true);
}
