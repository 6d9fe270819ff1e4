use vandelay::exchange::tz::{table_len, windows_to_iana};

#[test]
fn pacific_standard_time_maps_to_los_angeles() {
    assert_eq!(windows_to_iana("Pacific Standard Time"), Some("America/Los_Angeles"));
}

#[test]
fn romance_standard_time_maps_to_paris() {
    assert_eq!(windows_to_iana("Romance Standard Time"), Some("Europe/Paris"));
}

#[test]
fn unknown_zone_returns_none() {
    assert_eq!(windows_to_iana("Made Up Zone"), None);
}

#[test]
fn case_insensitive_lookup() {
    assert_eq!(windows_to_iana("eastern standard time"), Some("America/New_York"));
}

#[test]
fn whitespace_is_trimmed() {
    assert_eq!(windows_to_iana("  GMT Standard Time  "), Some("Europe/London"));
}

#[test]
fn full_cldr_table_has_at_least_140_rows() {
    assert!(table_len() >= 140, "got {} rows", table_len());
}

#[test]
fn spot_check_coverage_across_continents() {
    assert_eq!(windows_to_iana("Tokyo Standard Time"), Some("Asia/Tokyo"));
    assert_eq!(windows_to_iana("AUS Eastern Standard Time"), Some("Australia/Sydney"));
    assert_eq!(windows_to_iana("Cen. Australia Standard Time"), Some("Australia/Adelaide"));
    assert_eq!(windows_to_iana("Greenland Standard Time"), Some("America/Godthab"));
    assert_eq!(windows_to_iana("China Standard Time"), Some("Asia/Shanghai"));
    assert_eq!(windows_to_iana("Israel Standard Time"), Some("Asia/Jerusalem"));
    assert_eq!(windows_to_iana("Chatham Islands Standard Time"), Some("Pacific/Chatham"));
    assert_eq!(windows_to_iana("Newfoundland Standard Time"), Some("America/St_Johns"));
    assert_eq!(windows_to_iana("UTC-08"), Some("Etc/GMT+8"));
    assert_eq!(windows_to_iana("UTC+13"), Some("Etc/GMT-13"));
    assert_eq!(windows_to_iana("Yukon Standard Time"), Some("America/Whitehorse"));
    assert_eq!(windows_to_iana("Aus Central W. Standard Time"), Some("Australia/Eucla"));
}

#[test]
fn coordinated_universal_time_alias_resolves_to_utc() {
    assert_eq!(windows_to_iana("Coordinated Universal Time"), Some("Etc/UTC"));
}

#[test]
fn empty_and_blank_names_are_unknown() {
    assert_eq!(windows_to_iana(""), None);
    assert_eq!(windows_to_iana("   "), None);
}

#[test]
fn lookup_ignores_case_and_surrounding_white_space() {
    for name in ["Eastern Standard Time", "Made Up Zone", "UTC"] {
        let plain = windows_to_iana(name);
        assert_eq!(windows_to_iana(&name.to_ascii_lowercase()), plain);
        assert_eq!(windows_to_iana(&format!("  {name}\t ")), plain);
    }
}
