use vandelay::exchange_ews::soap::{soap_action, wrap_envelope, write_escaped, EnvelopeOptions};
use vandelay::exchange_ews::types::{
    CalendarItemType, FolderClass, FolderId, ItemId, ResponseCode, ServerVersion,
};

#[test]
fn envelope_has_canonical_namespaces() {
    let env = wrap_envelope(EnvelopeOptions::default(), "<m:FindFolder/>");
    assert!(env.contains("xmlns:soap=\"http://schemas.xmlsoap.org/soap/envelope/\""));
    assert!(env.contains("xmlns:t=\"http://schemas.microsoft.com/exchange/services/2006/types\""));
    assert!(env.contains("xmlns:m=\"http://schemas.microsoft.com/exchange/services/2006/messages\""));
    assert!(env.contains("<t:RequestServerVersion Version=\"Exchange2013_SP1\"/>"));
    assert!(env.contains("<m:FindFolder/>"));
}

#[test]
fn envelope_impersonation_includes_smtp() {
    let opts = EnvelopeOptions {
        version: ServerVersion::Exchange2016,
        impersonated_smtp: Some("alice@contoso.com"),
    };
    let env = wrap_envelope(opts, "<m:FindFolder/>");
    assert!(env.contains("<t:ExchangeImpersonation>"));
    assert!(env.contains("<t:PrimarySmtpAddress>alice@contoso.com</t:PrimarySmtpAddress>"));
    assert!(env.contains("Version=\"Exchange2016\""));
}

#[test]
fn envelope_without_impersonation_has_no_impersonation_header() {
    let env = wrap_envelope(EnvelopeOptions::default(), "<m:GetItem/>");
    assert!(!env.contains("ExchangeImpersonation"));
}

#[test]
fn soap_action_quotes_operation() {
    assert_eq!(
        soap_action("FindItem"),
        "\"http://schemas.microsoft.com/exchange/services/2006/messages/FindItem\""
    );
}

#[test]
fn write_escaped_handles_metachars() {
    let mut s = String::new();
    write_escaped(&mut s, "<a&b>");
    assert_eq!(s, "&lt;a&amp;b&gt;");
}

#[test]
fn folder_class_mapping() {
    assert_eq!(FolderClass::from_ipf("IPF.Note"), FolderClass::Mail);
    assert_eq!(FolderClass::from_ipf("IPF.Appointment"), FolderClass::Calendar);
    assert_eq!(FolderClass::from_ipf("IPF.Appointment.Birthday"), FolderClass::Calendar);
    assert_eq!(FolderClass::from_ipf("IPF.Contact"), FolderClass::Contacts);
    assert_eq!(FolderClass::from_ipf("IPF.Task"), FolderClass::Skipped);
}

#[test]
fn absent_or_unknown_folder_class_falls_back_to_mail() {
    assert_eq!(FolderClass::from_ipf(""), FolderClass::Mail);
    assert_eq!(FolderClass::from_ipf("   "), FolderClass::Mail);
    assert_eq!(FolderClass::from_ipf("IPF.SomethingNew"), FolderClass::Mail);
    assert!(FolderClass::is_mail_fallback(""));
    assert!(FolderClass::is_mail_fallback("IPF.SomethingNew"));
    assert!(!FolderClass::is_mail_fallback("IPF.Note"));
    assert!(!FolderClass::is_mail_fallback("IPF.Note.OutlookHomepage"));
    assert!(!FolderClass::is_mail_fallback("IPF.Task"));
}

#[test]
fn internal_and_out_of_scope_classes_are_skipped() {
    for c in [
        "IPF.Task",
        "IPF.Journal",
        "IPF.StickyNote",
        "IPF.Configuration",
        "IPF.StoreItem.PdpProfileV2Secured",
        "IPF.SkypeTeams.Message",
        "IPF.Files",
        "IPF.Note.OutlookHomepage",
    ] {
        assert_eq!(FolderClass::from_ipf(c), FolderClass::Skipped, "{c}");
    }
}

#[test]
fn server_version_from_build() {
    assert_eq!(ServerVersion::from_build(15, 0), ServerVersion::Exchange2013);
    assert_eq!(ServerVersion::from_build(15, 1), ServerVersion::Exchange2016);
    assert_eq!(ServerVersion::from_build(15, 2), ServerVersion::Exchange2019);
    assert_eq!(ServerVersion::from_build(99, 99), ServerVersion::Exchange2019);
}

#[test]
fn old_builds_map_to_older_versions() {
    assert_eq!(ServerVersion::from_build(14, 0), ServerVersion::Exchange2010);
    assert_eq!(ServerVersion::from_build(8, 3), ServerVersion::Exchange2007);
}

#[test]
fn server_version_ladder_descends_to_floor() {
    let mut v = ServerVersion::Exchange2019;
    let mut chain = vec![v];
    while let Some(next) = v.lower() {
        chain.push(next);
        v = next;
    }
    assert_eq!(
        chain,
        vec![
            ServerVersion::Exchange2019,
            ServerVersion::Exchange2016,
            ServerVersion::Exchange2013Sp1,
            ServerVersion::Exchange2013,
            ServerVersion::Exchange2010Sp2,
            ServerVersion::Exchange2010Sp1,
            ServerVersion::Exchange2010,
            ServerVersion::Exchange2007,
        ]
    );
    assert_eq!(ServerVersion::Exchange2007.lower(), None);
}

#[test]
fn response_code_round_trip() {
    let codes = [
        "NoError",
        "ErrorItemNotFound",
        "ErrorAccessDenied",
        "ErrorInvalidIdMalformed",
        "ErrorServerBusy",
        "ErrorTimeoutExpired",
        "ErrorInvalidSyncStateData",
        "ErrorMimeContentConversionFailed",
        "ErrorAttachmentNotFound",
        "ErrorAuthenticationRequired",
        "ErrorImpersonationFailed",
        "ErrorWhatever",
    ];
    for c in codes {
        assert_eq!(ResponseCode::parse(c).as_wire(), c);
    }
}

#[test]
fn unknown_response_code_is_other() {
    assert!(matches!(ResponseCode::parse("ErrorWhatever"), ResponseCode::Other(ref s) if s == "ErrorWhatever"));
    assert!(matches!(ResponseCode::parse("ErrorServerBusy"), ResponseCode::ServerBusy { back_off_ms: None }));
}

#[test]
fn calendar_item_type_parse() {
    assert_eq!(CalendarItemType::parse("Single"), Some(CalendarItemType::Single));
    assert_eq!(CalendarItemType::parse("RecurringMaster"), Some(CalendarItemType::RecurringMaster));
    assert_eq!(CalendarItemType::parse("Nope"), None);
}

#[test]
fn ids_keep_their_parts() {
    let i = ItemId::new("AAA=", "CK1");
    assert_eq!(i.id, "AAA=");
    assert_eq!(i.change_key, "CK1");
    let f = FolderId::new("FFF", "");
    assert_eq!(f.id, "FFF");
    assert_eq!(f.change_key, "");
}

#[test]
fn response_code_wire_names_read_back() {
    for name in ["NoError", "ErrorItemNotFound", "ErrorServerBusy", "ErrorADUnavailable", "ErrorInvalidRequest", "SomethingNew"] {
        let code = vandelay::exchange_ews::types::ResponseCode::parse(name);
        assert_eq!(code.as_wire(), name);
        let again = vandelay::exchange_ews::types::ResponseCode::parse(code.as_wire());
        assert_eq!(format!("{again:?}"), format!("{code:?}"));
    }
}
