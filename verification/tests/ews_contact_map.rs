use vandelay::exchange_ews::contact_map::{synthetic_uid, to_jscontact};
use vandelay::exchange_ews::parse::{ContactItemRaw, RawContactAddress};
use vandelay::json::JsonValue;

fn card_json(j: &JsonValue) -> serde_json::Value {
    match j {
        JsonValue::Null => serde_json::Value::Null,
        JsonValue::Bool(b) => serde_json::Value::Bool(*b),
        JsonValue::Number(n) => serde_json::Value::from(*n),
        JsonValue::OtherNumber(t) => serde_json::Value::Number(t.parse().unwrap()),
        JsonValue::Str(s) => serde_json::Value::String(s.clone()),
        JsonValue::Array(a) => serde_json::Value::Array(a.iter().map(card_json).collect()),
        JsonValue::Object(o) => {
            let mut m = serde_json::Map::new();
            for (k, v) in o {
                m.insert(k.clone(), card_json(v));
            }
            serde_json::Value::Object(m)
        }
    }
}

#[test]
fn basic_contact_round_trip() {
    let raw = ContactItemRaw {
        display_name: Some("Alice Doe".to_owned()),
        given_name: Some("Alice".to_owned()),
        surname: Some("Doe".to_owned()),
        emails: vec![("EmailAddress1".to_owned(), "alice@x".to_owned())],
        phones: vec![("BusinessPhone1".to_owned(), "+1".to_owned())],
        ..ContactItemRaw::default()
    };
    let v = card_json(&to_jscontact(&raw));
    assert_eq!(v["@type"], "Card");
    assert_eq!(v["name"]["full"], "Alice Doe");
    let comps = v["name"]["components"].as_array().unwrap();
    assert_eq!(comps[0]["kind"], "given");
    assert_eq!(comps[0]["value"], "Alice");
    assert_eq!(v["emails"]["1"]["address"], "alice@x");
    assert_eq!(v["phones"]["1"]["contexts"]["work"], true);
}

#[test]
fn synthetic_uid_is_stable() {
    let u1 = synthetic_uid("ITEM-1");
    let u2 = synthetic_uid("ITEM-1");
    assert_eq!(u1, u2);
    assert_ne!(u1, synthetic_uid("ITEM-2"));
    assert!(u1.starts_with("vandelay-ews-syn-"));
}

#[test]
fn anniversaries_combine_birth_and_wedding() {
    let raw = ContactItemRaw {
        display_name: Some("X".to_owned()),
        birthday: Some("1990-04-15T00:00:00Z".to_owned()),
        wedding_anniversary: Some("2015-08-22T00:00:00".to_owned()),
        ..ContactItemRaw::default()
    };
    let v = card_json(&to_jscontact(&raw));
    assert_eq!(v["anniversaries"]["birth"]["kind"], "birth");
    assert_eq!(v["anniversaries"]["birth"]["date"]["month"], 4);
    assert_eq!(v["anniversaries"]["wedding"]["kind"], "wedding");
}

#[test]
fn office_location_is_added_as_org_unit() {
    let raw = ContactItemRaw {
        display_name: Some("X".to_owned()),
        company_name: Some("Initech".to_owned()),
        department: Some("R&D".to_owned()),
        office_location: Some("Bldg 4".to_owned()),
        ..ContactItemRaw::default()
    };
    let v = card_json(&to_jscontact(&raw));
    let units = v["organizations"]["1"]["units"].as_array().unwrap();
    assert_eq!(units[0]["name"], "R&D");
    assert_eq!(units[1]["name"], "Bldg 4");
}

#[test]
fn extra_companies_become_additional_organizations() {
    let raw = ContactItemRaw {
        display_name: Some("X".to_owned()),
        company_name: Some("Initech".to_owned()),
        companies: vec!["Initech".to_owned(), "Initrode".to_owned()],
        ..ContactItemRaw::default()
    };
    let v = card_json(&to_jscontact(&raw));
    assert_eq!(v["organizations"]["1"]["name"], "Initech");
    assert_eq!(v["organizations"]["2"]["name"], "Initrode");
}

#[test]
fn postal_address_index_sets_pref_on_matching_entry() {
    let raw = ContactItemRaw {
        display_name: Some("X".to_owned()),
        addresses: vec![
            RawContactAddress {
                key: "Home".to_owned(),
                street: Some("1 St".to_owned()),
                ..Default::default()
            },
            RawContactAddress {
                key: "Business".to_owned(),
                street: Some("2 Av".to_owned()),
                ..Default::default()
            },
        ],
        postal_address_index: Some("Business".to_owned()),
        ..ContactItemRaw::default()
    };
    let v = card_json(&to_jscontact(&raw));
    assert!(v["addresses"]["1"].get("pref").is_none());
    assert_eq!(v["addresses"]["2"]["pref"], 1);
}

#[test]
fn im_service_extracted_from_key() {
    let raw = ContactItemRaw {
        display_name: Some("X".to_owned()),
        ims: vec![("ImAddress1".to_owned(), "alice@msn".to_owned())],
        ..ContactItemRaw::default()
    };
    let v = card_json(&to_jscontact(&raw));
    assert_eq!(v["onlineServices"]["1"]["user"], "alice@msn");
    assert!(v["onlineServices"]["1"].get("service").is_none());
}

#[test]
fn relations_use_x_prefix_for_manager_and_assistant() {
    let raw = ContactItemRaw {
        display_name: Some("X".to_owned()),
        manager: Some("Boss".to_owned()),
        assistant: Some("Asst".to_owned()),
        ..ContactItemRaw::default()
    };
    let v = card_json(&to_jscontact(&raw));
    assert_eq!(v["relatedTo"]["Boss"]["relation"]["x-manager"], true);
    assert_eq!(v["relatedTo"]["Asst"]["relation"]["x-assistant"], true);
}

#[test]
fn phone_and_email_contexts_and_features() {
    let raw = ContactItemRaw {
        emails: vec![("HomeEmail".to_owned(), "h@x".to_owned()), ("Other".to_owned(), "o@x".to_owned())],
        phones: vec![
            ("MobilePhone".to_owned(), "1".to_owned()),
            ("BusinessFax".to_owned(), "2".to_owned()),
            ("Pager".to_owned(), "3".to_owned()),
        ],
        ims: vec![("ImAddressSkype2".to_owned(), "bob".to_owned())],
        ..ContactItemRaw::default()
    };
    let v = card_json(&to_jscontact(&raw));
    assert_eq!(v["emails"]["1"]["contexts"]["private"], true);
    assert_eq!(v["emails"]["2"]["contexts"].as_object().unwrap().len(), 0);
    assert_eq!(v["phones"]["1"]["contexts"]["private"], true);
    assert_eq!(v["phones"]["1"]["features"]["mobile"], true);
    assert_eq!(v["phones"]["2"]["contexts"]["work"], true);
    assert_eq!(v["phones"]["2"]["features"]["fax"], true);
    assert_eq!(v["phones"]["3"]["features"]["pager"], true);
    assert_eq!(v["onlineServices"]["1"]["service"], "Skype");
    assert!(v.get("name").is_none());
}

#[test]
fn partial_dates_drop_zero_years_and_reject_bad_dates() {
    let raw = ContactItemRaw {
        birthday: Some("0000-04-15".to_owned()),
        wedding_anniversary: Some("not a date".to_owned()),
        spouse: Some("Sam".to_owned()),
        children: vec!["Sam".to_owned()],
        ..ContactItemRaw::default()
    };
    let v = card_json(&to_jscontact(&raw));
    assert!(v["anniversaries"]["birth"]["date"].get("year").is_none());
    assert_eq!(v["anniversaries"]["birth"]["date"]["day"], 15);
    assert!(v["anniversaries"].get("wedding").is_none());
    assert_eq!(v["relatedTo"].as_object().unwrap().len(), 1);
    assert_eq!(v["relatedTo"]["Sam"]["relation"]["child"], true);
}
