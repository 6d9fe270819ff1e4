use vandelay::imap::automap::{role_for_folder, role_from_special_use};

fn attrs(s: &[&str]) -> Vec<String> {
    s.iter().map(|x| (*x).to_owned()).collect()
}

#[test]
fn inbox_always_maps_to_inbox() {
    assert_eq!(role_for_folder("INBOX", &[], "", true), Some("inbox"));
    assert_eq!(role_for_folder("inbox", &[], "", true), Some("inbox"));
    assert_eq!(role_for_folder("Inbox", &[], "", false), Some("inbox"));
}

#[test]
fn special_use_drives_role() {
    let r = role_for_folder("Whatever", &attrs(&["\\Sent"]), "", false);
    assert_eq!(r, Some("sent"));
    let r = role_for_folder("Anywhere", &attrs(&["\\Drafts"]), "", true);
    assert_eq!(r, Some("drafts"));
}

#[test]
fn special_use_table_covers_all_iana_roles() {
    for (attr, expected) in [
        ("\\All", "all"),
        ("\\Archive", "archive"),
        ("\\Drafts", "drafts"),
        ("\\Flagged", "flagged"),
        ("\\Important", "important"),
        ("\\Junk", "junk"),
        ("\\Sent", "sent"),
        ("\\Trash", "trash"),
    ] {
        let r = role_from_special_use(&attrs(&[attr]));
        assert_eq!(r, Some(expected), "for {attr}");
    }
}

#[test]
fn special_use_attrs_unrelated_to_roles_yield_none() {
    for s in [
        "\\Subscribed",
        "\\HasChildren",
        "\\HasNoChildren",
        "\\Marked",
        "\\Unmarked",
        "\\Noselect",
        "\\Noinferiors",
        "\\Remote",
    ] {
        assert_eq!(role_from_special_use(&attrs(&[s])), None);
    }
}

#[test]
fn name_heuristic_when_no_special_use() {
    assert_eq!(role_for_folder("Sent", &[], "", true), Some("sent"));
    assert_eq!(role_for_folder("Sent Items", &[], "", true), Some("sent"));
    assert_eq!(role_for_folder("Drafts", &[], "", true), Some("drafts"));
    assert_eq!(role_for_folder("Trash", &[], "", true), Some("trash"));
    assert_eq!(role_for_folder("Deleted Items", &[], "", true), Some("trash"));
    assert_eq!(role_for_folder("Junk", &[], "", true), Some("junk"));
    assert_eq!(role_for_folder("Spam", &[], "", true), Some("junk"));
    assert_eq!(role_for_folder("Archive", &[], "", true), Some("archive"));
    assert_eq!(role_for_folder("[Gmail]/All Mail", &[], "", true), Some("all"));
    assert_eq!(role_for_folder("Archives", &[], "", true), Some("archive"));
}

#[test]
fn name_heuristic_disabled_when_automap_off() {
    assert_eq!(role_for_folder("Sent", &[], "", false), None);
    assert_eq!(role_for_folder("Trash", &[], "", false), None);
}

#[test]
fn namespace_prefix_stripped_before_name_match() {
    assert_eq!(role_for_folder("INBOX.Sent", &[], "INBOX.", true), Some("sent"));
    assert_eq!(role_for_folder("INBOX.Drafts", &[], "INBOX.", true), Some("drafts"));
}

#[test]
fn unknown_folder_yields_none() {
    assert_eq!(role_for_folder("My Custom Folder", &[], "", true), None);
    assert_eq!(role_for_folder("Projects/Alpha", &[], "", true), None);
}

#[test]
fn case_insensitive_name_match() {
    assert_eq!(role_for_folder("sent", &[], "", true), Some("sent"));
    assert_eq!(role_for_folder("DRAFTS", &[], "", true), Some("drafts"));
}

#[test]
fn all_special_use_wins_over_heuristic_archive() {
    let r = role_for_folder("[Gmail]/All Mail", &attrs(&["\\All"]), "", true);
    assert_eq!(r, Some("all"));
}

#[test]
fn gmail_all_mail_no_attribute_is_all_not_archive() {
    let r = role_for_folder("[Gmail]/All Mail", &[], "", true);
    assert_eq!(r, Some("all"));
}

#[test]
fn plain_archive_name_resolves_to_archive() {
    assert_eq!(role_for_folder("Archive", &[], "", true), Some("archive"));
    assert_eq!(role_for_folder("Archives", &[], "", true), Some("archive"));
}

#[test]
fn leaf_component_used_for_nested_names() {
    assert_eq!(role_for_folder("Work/Sent", &[], "", true), Some("sent"));
    assert_eq!(role_for_folder("Work.Trash", &[], "", true), Some("trash"));
}

#[test]
fn special_use_matched_case_insensitively() {
    assert_eq!(role_from_special_use(&attrs(&["\\sent"])), Some("sent"));
    assert_eq!(role_from_special_use(&attrs(&["\\HasNoChildren", "\\Trash"])), Some("trash"));
}

#[test]
fn special_use_wins_before_any_prefix_is_cut() {
    let attrs = vec!["\\Sent".to_owned()];
    assert_eq!(role_for_folder("\u{00e9}t\u{00e9}", &attrs, "x", true), Some("sent"));
    assert_eq!(role_for_folder("\u{00e9}t\u{00e9}", &[], "x", false), None);
}
