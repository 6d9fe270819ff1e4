use vandelay::jmap::blob::{apply_export, apply_import, export_references, import_references};
use vandelay::json::JsonValue;

fn s(t: &str) -> JsonValue {
    JsonValue::Str(t.to_owned())
}

fn obj(members: Vec<(&str, JsonValue)>) -> JsonValue {
    JsonValue::Object(members.into_iter().map(|(k, v)| (k.to_owned(), v)).collect())
}

fn keys(v: &JsonValue) -> Vec<String> {
    match v {
        JsonValue::Object(o) => o.iter().map(|(k, _)| k.clone()).collect(),
        _ => Vec::new(),
    }
}

fn member<'a>(v: &'a JsonValue, k: &str) -> Option<&'a JsonValue> {
    match v {
        JsonValue::Object(o) => o.iter().find(|(n, _)| n == k).map(|(_, x)| x),
        _ => None,
    }
}

fn number(v: Option<&JsonValue>) -> Option<i64> {
    match v {
        Some(JsonValue::Number(n)) => Some(*n),
        _ => None,
    }
}

fn text(v: Option<&JsonValue>) -> Option<String> {
    match v {
        Some(JsonValue::Str(t)) => Some(t.clone()),
        _ => None,
    }
}

fn email() -> JsonValue {
    obj(vec![
        ("blobId", s("Gabc")),
        ("subject", s("hello")),
        (
            "attachments",
            JsonValue::Array(vec![obj(vec![("blobId", s("Gdef")), ("name", s("a.txt"))]), obj(vec![("name", s("b.txt"))])]),
        ),
    ])
}

#[test]
fn import_references_come_in_walk_order() {
    assert_eq!(import_references(&email()), vec!["Gabc".to_owned(), "Gdef".to_owned()]);
}

#[test]
fn import_replaces_each_blob_id_by_its_local_id() {
    let mut v = email();
    assert!(apply_import(&mut v, &[11, 22]));
    assert_eq!(keys(&v), vec!["attachments", "subject", "@blob"]);
    assert_eq!(number(member(&v, "@blob")), Some(11));
    assert!(member(&v, "blobId").is_none());
    let first = match member(&v, "attachments") {
        Some(JsonValue::Array(a)) => &a[0],
        _ => panic!("attachments missing"),
    };
    assert_eq!(keys(first), vec!["name", "@blob"]);
    assert_eq!(number(member(first, "@blob")), Some(22));
}

#[test]
fn import_without_an_answer_stops_with_the_blob_id_taken_out() {
    let mut v = email();
    assert!(!apply_import(&mut v, &[11]));
    assert_eq!(number(member(&v, "@blob")), Some(11));
    let first = match member(&v, "attachments") {
        Some(JsonValue::Array(a)) => &a[0],
        _ => panic!("attachments missing"),
    };
    assert_eq!(keys(first), vec!["name"]);
}

#[test]
fn import_drops_a_blob_id_that_is_not_a_string() {
    let mut v = obj(vec![("blobId", JsonValue::Number(5)), ("size", JsonValue::Number(9))]);
    assert!(import_references(&v).is_empty());
    assert!(apply_import(&mut v, &[]));
    assert_eq!(keys(&v), vec!["size"]);
}

#[test]
fn import_answer_replaces_an_existing_sentinel_in_place() {
    let mut v = obj(vec![("@blob", obj(vec![("blobId", s("inner"))])), ("blobId", s("outer"))]);
    assert_eq!(import_references(&v), vec!["outer".to_owned()]);
    assert!(apply_import(&mut v, &[3]));
    assert_eq!(keys(&v), vec!["@blob"]);
    assert_eq!(number(member(&v, "@blob")), Some(3));
}

#[test]
fn export_references_mark_a_malformed_sentinel() {
    let v = obj(vec![("@blob", JsonValue::Number(7)), ("x", obj(vec![("@blob", s("bad"))]))]);
    assert_eq!(export_references(&v), vec![Some(7), None]);
}

#[test]
fn export_stops_at_a_malformed_sentinel() {
    let mut v = obj(vec![("@blob", JsonValue::Number(7)), ("x", obj(vec![("@blob", s("bad")), ("y", JsonValue::Null)]))]);
    assert!(!apply_export(&mut v, &["S7".to_owned()]));
    assert_eq!(keys(&v), vec!["x", "blobId"]);
    assert_eq!(text(member(&v, "blobId")), Some("S7".to_owned()));
    assert_eq!(keys(member(&v, "x").unwrap()), vec!["y"]);
}

#[test]
fn export_after_import_meets_the_local_ids_and_restores_the_blob_ids() {
    let mut v = email();
    assert!(apply_import(&mut v, &[11, 22]));
    assert_eq!(export_references(&v), vec![Some(11), Some(22)]);
    assert!(apply_export(&mut v, &["Gabc".to_owned(), "Gdef".to_owned()]));
    assert_eq!(import_references(&v), vec!["Gabc".to_owned(), "Gdef".to_owned()]);
    assert!(member(&v, "@blob").is_none());
    assert_eq!(text(member(&v, "blobId")), Some("Gabc".to_owned()));
}

#[test]
fn other_numbers_pass_through_a_walk_untouched() {
    let mut v = obj(vec![("ratio", JsonValue::OtherNumber("0.5".to_owned())), ("blobId", s("G1"))]);
    assert!(apply_import(&mut v, &[1]));
    match member(&v, "ratio") {
        Some(JsonValue::OtherNumber(t)) => assert_eq!(t, "0.5"),
        _ => panic!("ratio changed"),
    }
}

#[test]
fn taking_a_member_out_moves_the_last_member_into_its_place() {
    let mut v = obj(vec![
        ("blobId", s("G")),
        ("a", JsonValue::Number(1)),
        ("b", JsonValue::Number(2)),
        ("c", JsonValue::Number(3)),
    ]);
    assert!(apply_import(&mut v, &[5]));
    assert_eq!(keys(&v), vec!["c", "a", "b", "@blob"]);
}

#[test]
fn members_after_the_moved_one_are_walked_in_their_new_order() {
    let v = obj(vec![
        ("blobId", s("G0")),
        ("first", obj(vec![("blobId", s("G1"))])),
        ("last", obj(vec![("blobId", s("G2"))])),
    ]);
    assert_eq!(import_references(&v), vec!["G0".to_owned(), "G2".to_owned(), "G1".to_owned()]);
}
