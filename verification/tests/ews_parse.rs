use vandelay::exchange_ews::parse::{
    parse_calendar_item, parse_contact_item, parse_find_folder_response, parse_find_item_response,
    parse_folder_inner, parse_get_attachment_inline, parse_message_item, parse_response_messages,
    parse_sync_folder_items_response, read_envelope_summary, EnvelopeKind, FolderElement, RecurrencePattern,
    RecurrenceRange, SyncChange,
};
use vandelay::exchange_ews::types::{CalendarItemType, ResponseCode, ServerVersion};
const NS: &str = " xmlns:soap=\"http://schemas.xmlsoap.org/soap/envelope/\" \
                  xmlns:t=\"http://schemas.microsoft.com/exchange/services/2006/types\" \
                  xmlns:m=\"http://schemas.microsoft.com/exchange/services/2006/messages\"";

#[test]
fn server_busy_fault_extracts_backoff_milliseconds() {
    let body = format!(
        "<soap:Envelope{NS}><soap:Header><t:ServerVersionInfo MajorVersion=\"15\" MinorVersion=\"1\"/></soap:Header><soap:Body>\
         <soap:Fault><faultcode>soap:Server</faultcode><faultstring>busy</faultstring><detail>\
         <ResponseCode xmlns=\"http://schemas.microsoft.com/exchange/services/2006/types\">ErrorServerBusy</ResponseCode>\
         <t:MessageXml><t:Value Name=\"BackOffMilliseconds\">297749</t:Value></t:MessageXml>\
         </detail></soap:Fault></soap:Body></soap:Envelope>"
    );
    let env = read_envelope_summary(body.as_bytes()).unwrap();
    match env {
        EnvelopeKind::Fault { fault, version } => {
            assert!(matches!(
                fault.response_code,
                ResponseCode::ServerBusy {
                    back_off_ms: Some(297749)
                }
            ));
            assert_eq!(fault.back_off_ms, Some(297749));
            assert_eq!(
                version.to_server_version(),
                Some(ServerVersion::Exchange2016)
            );
        }
        _ => panic!("expected fault"),
    }
}

#[test]
fn body_envelope_returns_version_only() {
    let body = format!(
        "<soap:Envelope{NS}><soap:Header><t:ServerVersionInfo MajorVersion=\"15\" MinorVersion=\"1\"/></soap:Header>\
         <soap:Body><m:FindFolderResponse/></soap:Body></soap:Envelope>"
    );
    let env = read_envelope_summary(body.as_bytes()).unwrap();
    assert!(matches!(env, EnvelopeKind::Body { .. }));
}

#[test]
fn find_folder_parses_two_folders() {
    let body = format!(
        "<m:FindFolderResponse{NS}><m:ResponseMessages><m:FindFolderResponseMessage ResponseClass=\"Success\">\
         <m:ResponseCode>NoError</m:ResponseCode>\
         <m:RootFolder TotalItemsInView=\"2\" IncludesLastItemInRange=\"true\">\
         <t:Folders>\
         <t:Folder><t:FolderId Id=\"F1\" ChangeKey=\"C1\"/><t:ParentFolderId Id=\"ROOT\"/>\
           <t:FolderClass>IPF.Note</t:FolderClass><t:DisplayName>Inbox</t:DisplayName>\
           <t:TotalCount>7</t:TotalCount><t:ChildFolderCount>0</t:ChildFolderCount></t:Folder>\
         <t:CalendarFolder><t:FolderId Id=\"F2\"/><t:ParentFolderId Id=\"ROOT\"/>\
           <t:FolderClass>IPF.Appointment</t:FolderClass><t:DisplayName>Calendar</t:DisplayName>\
           </t:CalendarFolder>\
         </t:Folders></m:RootFolder></m:FindFolderResponseMessage></m:ResponseMessages></m:FindFolderResponse>"
    );
    let r = parse_find_folder_response(body.as_bytes()).unwrap();
    assert_eq!(r.folders.len(), 2);
    assert_eq!(r.folders[0].folder_id.id, "F1");
    assert_eq!(r.folders[0].folder_id.change_key, "C1");
    assert_eq!(r.folders[0].display_name, "Inbox");
    assert_eq!(r.folders[0].folder_class, "IPF.Note");
    assert_eq!(r.folders[0].parent_id.as_deref(), Some("ROOT"));
    assert_eq!(r.folders[1].element, FolderElement::CalendarFolder);
    assert!(!r.more);
}

#[test]
fn find_item_parses_two_messages_with_pagination_flag() {
    let body = format!(
        "<m:FindItemResponse{NS}><m:ResponseMessages><m:FindItemResponseMessage ResponseClass=\"Success\">\
         <m:ResponseCode>NoError</m:ResponseCode>\
         <m:RootFolder TotalItemsInView=\"3\" IncludesLastItemInRange=\"false\">\
         <t:Items>\
           <t:Message><t:ItemId Id=\"I1\" ChangeKey=\"CK1\"/></t:Message>\
           <t:Message><t:ItemId Id=\"I2\" ChangeKey=\"CK2\"/></t:Message>\
         </t:Items></m:RootFolder></m:FindItemResponseMessage></m:ResponseMessages></m:FindItemResponse>"
    );
    let r = parse_find_item_response(body.as_bytes()).unwrap();
    assert_eq!(r.items.len(), 2);
    assert_eq!(r.items[0].id.id, "I1");
    assert_eq!(r.items[0].id.change_key, "CK1");
    assert_eq!(r.items[1].id.id, "I2");
    assert!(r.more);
    assert_eq!(r.total_in_view, Some(3));
}

#[test]
fn parse_response_messages_carries_inner_xml_and_codes() {
    let body = format!(
        "<m:GetItemResponse{NS}><m:ResponseMessages>\
         <m:GetItemResponseMessage ResponseClass=\"Success\">\
           <m:ResponseCode>NoError</m:ResponseCode>\
           <m:Items><t:Message><t:ItemId Id=\"X1\" ChangeKey=\"K1\"/>\
             <t:Subject>Hi</t:Subject><t:IsRead>true</t:IsRead>\
             <t:MimeContent CharacterSet=\"UTF-8\">SGVsbG8=</t:MimeContent>\
             </t:Message></m:Items></m:GetItemResponseMessage>\
         <m:GetItemResponseMessage ResponseClass=\"Error\">\
           <m:ResponseCode>ErrorItemNotFound</m:ResponseCode>\
           <m:MessageText>not found</m:MessageText>\
           </m:GetItemResponseMessage>\
         </m:ResponseMessages></m:GetItemResponse>"
    );
    let r = parse_response_messages(body.as_bytes(), b"GetItemResponseMessage").unwrap();
    assert_eq!(r.len(), 2);
    assert!(r[0].success);
    assert!(r[0].inner_xml.contains("<t:ItemId"));
    assert!(r[0].inner_xml.contains("SGVsbG8="));
    let parsed = parse_message_item(&r[0].inner_xml).unwrap();
    assert_eq!(parsed.id.id, "X1");
    assert_eq!(parsed.subject.as_deref(), Some("Hi"));
    assert_eq!(parsed.is_read, Some(true));
    assert_eq!(parsed.mime_content.as_deref(), Some("SGVsbG8="));
    assert!(!r[1].success);
    assert!(matches!(r[1].response_code, ResponseCode::ItemNotFound));
}

#[test]
fn sync_folder_items_emits_create_delete_readflag() {
    let body = format!(
        "<m:SyncFolderItemsResponse{NS}><m:ResponseMessages><m:SyncFolderItemsResponseMessage ResponseClass=\"Success\">\
         <m:ResponseCode>NoError</m:ResponseCode>\
         <m:SyncState>AAAA</m:SyncState>\
         <m:IncludesLastItemInRange>true</m:IncludesLastItemInRange>\
         <m:Changes>\
           <t:Create><t:Message><t:ItemId Id=\"I1\" ChangeKey=\"K1\"/></t:Message></t:Create>\
           <t:Delete><t:ItemId Id=\"I2\"/></t:Delete>\
           <t:ReadFlagChange><t:ItemId Id=\"I3\"/><t:IsRead>true</t:IsRead></t:ReadFlagChange>\
         </m:Changes></m:SyncFolderItemsResponseMessage></m:ResponseMessages></m:SyncFolderItemsResponse>"
    );
    let r = parse_sync_folder_items_response(body.as_bytes()).unwrap();
    assert_eq!(r.sync_state, "AAAA");
    assert!(!r.more);
    assert_eq!(r.changes.len(), 3);
    match &r.changes[0] {
        SyncChange::Create { id, element } => {
            assert_eq!(id.id, "I1");
            assert_eq!(element, "Message");
        }
        _ => panic!("expected Create"),
    }
    match &r.changes[2] {
        SyncChange::ReadFlagChange { id, is_read } => {
            assert_eq!(id.id, "I3");
            assert!(*is_read);
        }
        _ => panic!("expected ReadFlagChange"),
    }
}

#[test]
fn calendar_master_recurrence_and_occurrences_round_trip() {
    let body = format!(
        "<t:CalendarItem{NS}>\
         <t:ItemId Id=\"M1\" ChangeKey=\"K1\"/>\
         <t:Subject>Daily</t:Subject>\
         <t:UID>uid-1</t:UID>\
         <t:Start>2025-06-15T14:00:00Z</t:Start>\
         <t:End>2025-06-15T15:00:00Z</t:End>\
         <t:CalendarItemType>RecurringMaster</t:CalendarItemType>\
         <t:Recurrence>\
           <t:DailyRecurrence><t:Interval>1</t:Interval></t:DailyRecurrence>\
           <t:NumberedRecurrence><t:StartDate>2025-06-15</t:StartDate><t:NumberOfOccurrences>3</t:NumberOfOccurrences></t:NumberedRecurrence>\
         </t:Recurrence>\
         <t:ModifiedOccurrences>\
           <t:Occurrence><t:ItemId Id=\"OCC1\"/><t:Start>2025-06-16T15:00:00Z</t:Start><t:End>2025-06-16T16:30:00Z</t:End><t:OriginalStart>2025-06-16T14:00:00Z</t:OriginalStart></t:Occurrence>\
         </t:ModifiedOccurrences>\
         <t:DeletedOccurrences>\
           <t:DeletedOccurrence><t:Start>2025-06-17T14:00:00Z</t:Start></t:DeletedOccurrence>\
         </t:DeletedOccurrences>\
         </t:CalendarItem>"
    );
    let parsed = parse_calendar_item(&body).unwrap();
    assert_eq!(parsed.id.id, "M1");
    assert_eq!(parsed.uid.as_deref(), Some("uid-1"));
    assert_eq!(
        parsed.calendar_item_type,
        Some(CalendarItemType::RecurringMaster)
    );
    assert_eq!(parsed.modified_occurrences.len(), 1);
    assert_eq!(
        parsed.modified_occurrences[0].original_start.as_deref(),
        Some("2025-06-16T14:00:00Z")
    );
    assert_eq!(parsed.deleted_occurrences.len(), 1);
    assert_eq!(
        parsed.deleted_occurrences[0].start.as_deref(),
        Some("2025-06-17T14:00:00Z")
    );
    let rec = parsed.recurrence.unwrap();
    assert!(matches!(
        rec.pattern,
        Some(RecurrencePattern::Daily { interval: 1 })
    ));
    assert!(matches!(
        rec.range,
        Some(RecurrenceRange::Numbered {
            number_of_occurrences: 3,
            ..
        })
    ));
}

#[test]
fn contact_parses_emails_phones_addresses() {
    let body = format!(
        "<t:Contact{NS}>\
         <t:ItemId Id=\"C1\" ChangeKey=\"K1\"/>\
         <t:DisplayName>Alice Doe</t:DisplayName>\
         <t:GivenName>Alice</t:GivenName>\
         <t:Surname>Doe</t:Surname>\
         <t:EmailAddresses>\
           <t:Entry Key=\"EmailAddress1\">alice@example.com</t:Entry>\
         </t:EmailAddresses>\
         <t:PhoneNumbers>\
           <t:Entry Key=\"BusinessPhone1\">+15551234</t:Entry>\
         </t:PhoneNumbers>\
         <t:PhysicalAddresses>\
           <t:Entry Key=\"Home\"><t:Street>1 Main</t:Street><t:City>Town</t:City><t:CountryOrRegion>US</t:CountryOrRegion></t:Entry>\
         </t:PhysicalAddresses>\
         </t:Contact>"
    );
    let parsed = parse_contact_item(&body).unwrap();
    assert_eq!(parsed.given_name.as_deref(), Some("Alice"));
    assert_eq!(parsed.surname.as_deref(), Some("Doe"));
    assert_eq!(parsed.emails.len(), 1);
    assert_eq!(parsed.emails[0].0, "EmailAddress1");
    assert_eq!(parsed.emails[0].1, "alice@example.com");
    assert_eq!(parsed.phones.len(), 1);
    assert_eq!(parsed.phones[0].0, "BusinessPhone1");
    assert_eq!(parsed.addresses.len(), 1);
    assert_eq!(parsed.addresses[0].key, "Home");
    assert_eq!(parsed.addresses[0].street.as_deref(), Some("1 Main"));
    assert_eq!(parsed.addresses[0].country.as_deref(), Some("US"));
}

#[test]
fn get_item_with_unprefixed_types_elements_parses() {
    let body = format!(
        "<m:GetItemResponse{NS}><m:ResponseMessages>\
         <m:GetItemResponseMessage ResponseClass=\"Success\">\
         <m:ResponseCode>NoError</m:ResponseCode>\
         <m:Items xmlns=\"http://schemas.microsoft.com/exchange/services/2006/types\">\
         <Message><ItemId Id=\"NP1\" ChangeKey=\"K\"/>\
         <Subject>Hello</Subject>\
         <MimeContent CharacterSet=\"UTF-8\">SGk=</MimeContent>\
         </Message></m:Items></m:GetItemResponseMessage>\
         </m:ResponseMessages></m:GetItemResponse>"
    );
    let msgs = parse_response_messages(body.as_bytes(), b"GetItemResponseMessage").unwrap();
    assert_eq!(msgs.len(), 1);
    let item = parse_message_item(&msgs[0].inner_xml).unwrap();
    assert_eq!(item.id.id, "NP1");
    assert_eq!(item.subject.as_deref(), Some("Hello"));
    assert_eq!(item.mime_content.as_deref(), Some("SGk="));
}

#[test]
fn default_namespace_response_parses_via_resolved_names() {
    let body = "<Envelope xmlns=\"http://schemas.xmlsoap.org/soap/envelope/\" \
                xmlns:m=\"http://schemas.microsoft.com/exchange/services/2006/messages\" \
                xmlns:t=\"http://schemas.microsoft.com/exchange/services/2006/types\">\
                <Body>\
                <m:FindFolderResponse><m:ResponseMessages>\
                <m:FindFolderResponseMessage ResponseClass=\"Success\">\
                <m:ResponseCode>NoError</m:ResponseCode>\
                <m:RootFolder TotalItemsInView=\"1\" IncludesLastItemInRange=\"true\">\
                <t:Folders><t:Folder><t:FolderId Id=\"D1\"/><t:ParentFolderId Id=\"R\"/>\
                <t:FolderClass>IPF.Note</t:FolderClass><t:DisplayName>Inbox</t:DisplayName>\
                </t:Folder></t:Folders></m:RootFolder>\
                </m:FindFolderResponseMessage></m:ResponseMessages></m:FindFolderResponse>\
                </Body></Envelope>";
    let parsed = parse_find_folder_response(body.as_bytes()).unwrap();
    assert_eq!(parsed.folders.len(), 1);
    assert_eq!(parsed.folders[0].folder_id.id, "D1");
    assert_eq!(parsed.folders[0].display_name, "Inbox");
}

#[test]
fn fault_response_code_in_messages_namespace_is_recognised() {
    let body = format!(
        "<soap:Envelope{NS}><soap:Body><soap:Fault>\
         <faultcode>soap:Server</faultcode><faultstring>busy</faultstring>\
         <detail><m:ResponseCode>ErrorServerBusy</m:ResponseCode>\
         <t:MessageXml><t:Value Name=\"BackOffMilliseconds\">42</t:Value></t:MessageXml>\
         </detail></soap:Fault></soap:Body></soap:Envelope>"
    );
    let env = read_envelope_summary(body.as_bytes()).unwrap();
    match env {
        EnvelopeKind::Fault { fault, .. } => {
            assert!(matches!(
                fault.response_code,
                ResponseCode::ServerBusy { .. }
            ));
            assert_eq!(fault.back_off_ms, Some(42));
        }
        _ => panic!("expected fault"),
    }
}

#[test]
fn change_key_attribute_with_entities_is_xml_decoded() {
    let body = format!(
        "<m:FindFolderResponse{NS}><m:ResponseMessages><m:FindFolderResponseMessage ResponseClass=\"Success\">\
         <m:ResponseCode>NoError</m:ResponseCode>\
         <m:RootFolder TotalItemsInView=\"1\" IncludesLastItemInRange=\"true\">\
         <t:Folders><t:Folder><t:FolderId Id=\"FID\" ChangeKey=\"A&amp;B\"/>\
         <t:DisplayName>X</t:DisplayName></t:Folder></t:Folders>\
         </m:RootFolder></m:FindFolderResponseMessage></m:ResponseMessages></m:FindFolderResponse>"
    );
    let parsed = parse_find_folder_response(body.as_bytes()).unwrap();
    assert_eq!(parsed.folders[0].folder_id.change_key, "A&B");
}

#[test]
fn warning_response_class_is_treated_as_success() {
    let body = format!(
        "<m:GetItemResponse{NS}><m:ResponseMessages>\
         <m:GetItemResponseMessage ResponseClass=\"Warning\">\
         <m:ResponseCode>NoError</m:ResponseCode>\
         <m:Items><t:Message><t:ItemId Id=\"W1\" ChangeKey=\"K\"/></t:Message></m:Items>\
         </m:GetItemResponseMessage></m:ResponseMessages></m:GetItemResponse>"
    );
    let r = parse_response_messages(body.as_bytes(), b"GetItemResponseMessage").unwrap();
    assert_eq!(r.len(), 1);
    assert!(r[0].success, "Warning should be success-equivalent");
}

#[test]
fn get_folder_response_message_captures_folder_inner() {
    let body = format!(
        "<m:GetFolderResponse{NS}><m:ResponseMessages>\
         <m:GetFolderResponseMessage ResponseClass=\"Success\">\
         <m:ResponseCode>NoError</m:ResponseCode>\
         <m:Folders><t:Folder><t:FolderId Id=\"F1\"/>\
         <t:DisplayName>Inbox</t:DisplayName></t:Folder></m:Folders>\
         </m:GetFolderResponseMessage>\
         <m:GetFolderResponseMessage ResponseClass=\"Error\">\
         <m:ResponseCode>ErrorAccessDenied</m:ResponseCode></m:GetFolderResponseMessage>\
         </m:ResponseMessages></m:GetFolderResponse>"
    );
    let msgs = parse_response_messages(body.as_bytes(), b"GetFolderResponseMessage").unwrap();
    assert_eq!(msgs.len(), 2);
    assert!(msgs[0].success);
    let f = parse_folder_inner(&msgs[0].inner_xml).unwrap().unwrap();
    assert_eq!(f.folder_id.id, "F1");
    assert!(!msgs[1].success);
}

#[test]
fn get_attachment_inline_decodes_content_field() {
    let body = format!(
        "<m:GetAttachmentResponse{NS}><m:ResponseMessages>\
         <m:GetAttachmentResponseMessage ResponseClass=\"Success\">\
         <m:ResponseCode>NoError</m:ResponseCode>\
         <m:Attachments>\
           <t:FileAttachment><t:AttachmentId Id=\"A1\"/><t:Name>p.png</t:Name>\
           <t:ContentType>image/png</t:ContentType>\
           <t:IsContactPhoto>true</t:IsContactPhoto>\
           <t:Content>iVBORw0KGgo=</t:Content></t:FileAttachment>\
         </m:Attachments></m:GetAttachmentResponseMessage></m:ResponseMessages></m:GetAttachmentResponse>"
    );
    let items = parse_get_attachment_inline(body.as_bytes()).unwrap();
    assert_eq!(items.len(), 1);
    assert_eq!(items[0].attachment_id, "A1");
    assert_eq!(items[0].name.as_deref(), Some("p.png"));
    assert_eq!(items[0].content_type.as_deref(), Some("image/png"));
    assert!(items[0].is_contact_photo);
    assert_eq!(items[0].content_base64, "iVBORw0KGgo=");
}

#[test]
fn text_split_by_an_entity_reference_keeps_its_last_piece() {
    let inner = format!(
        "<vandelay-inner{NS}><t:Message><t:ItemId Id=\"E1\" ChangeKey=\"K\"/>\
         <t:Subject>AT&amp;T</t:Subject></t:Message></vandelay-inner>"
    );
    let item = parse_message_item(&inner).unwrap();
    assert_eq!(item.subject.as_deref(), Some("T"));
}
