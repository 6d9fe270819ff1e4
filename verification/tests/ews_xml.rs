use vandelay::exchange_ews::types::{DistinguishedFolderId, FolderId, ItemId, ServerVersion};
use vandelay::exchange_ews::xml::{
    find_folder_body, find_item_body, get_attachment_body, get_folder_body, get_item_body,
    sync_folder_items_body, FolderRef, FolderShape, ItemShape, Traversal,
};

#[test]
fn find_folder_uses_deep_traversal_for_msgfolderroot() {
    let body = find_folder_body(
        FolderRef::Distinguished(DistinguishedFolderId::MsgFolderRoot),
        Traversal::Deep,
    );
    assert!(body.contains("Traversal=\"Deep\""));
    assert!(body.contains("<t:DistinguishedFolderId Id=\"msgfolderroot\"/>"));
    assert!(body.contains("folder:FolderClass"));
    assert!(body.contains("folder:DisplayName"));
    assert!(body.contains("folder:ParentFolderId"));
}

#[test]
fn find_folder_archive_uses_archiveroot() {
    let body = find_folder_body(
        FolderRef::Distinguished(DistinguishedFolderId::ArchiveRoot),
        Traversal::Deep,
    );
    assert!(body.contains("<t:DistinguishedFolderId Id=\"archiveroot\"/>"));
}

#[test]
fn find_item_paginates_with_offset_and_page_size() {
    let folder = FolderId::new("FID", "FCK");
    let body = find_item_body(FolderRef::Concrete(&folder), Traversal::Shallow, 200, 50);
    assert!(body.contains("Offset=\"200\""));
    assert!(body.contains("MaxEntriesReturned=\"50\""));
    assert!(body.contains("<t:FolderId Id=\"FID\" ChangeKey=\"FCK\"/>"));
}

#[test]
fn find_item_sorts_by_creation_time_for_stable_paging() {
    let folder = FolderId::new("FID", "FCK");
    let body = find_item_body(FolderRef::Concrete(&folder), Traversal::Shallow, 0, 50);
    assert!(body.contains("<m:SortOrder>"));
    assert!(body.contains("Order=\"Ascending\""));
    assert!(body.contains("item:DateTimeCreated"));
    let sort_at = body.find("<m:SortOrder>").unwrap();
    let parents_at = body.find("<m:ParentFolderIds>").unwrap();
    assert!(sort_at < parents_at, "SortOrder must precede ParentFolderIds");
}

#[test]
fn get_item_message_shape_requests_mime() {
    let ids = vec![ItemId::new("I1", "CK1"), ItemId::new("I2", "")];
    let body = get_item_body(ItemShape::Message, &ids, ServerVersion::Exchange2013Sp1);
    assert!(body.contains("<t:IncludeMimeContent>true</t:IncludeMimeContent>"));
    assert!(body.contains("<t:ItemId Id=\"I1\" ChangeKey=\"CK1\"/>"));
    assert!(body.contains("<t:ItemId Id=\"I2\"/>"));
}

#[test]
fn item_flag_requested_only_on_exchange_2013_and_later() {
    let ids = [ItemId::new("I1", "")];
    let modern = get_item_body(ItemShape::Message, &ids, ServerVersion::Exchange2013Sp1);
    assert!(modern.contains("item:Flag"));
    let legacy = get_item_body(ItemShape::Message, &ids, ServerVersion::Exchange2010Sp2);
    assert!(
        !legacy.contains("item:Flag"),
        "item:Flag is an Exchange 2013 schema addition; must be omitted on 2010"
    );
    assert!(legacy.contains("item:DateTimeReceived"));
    assert!(legacy.contains("message:IsReadReceiptRequested"));
    assert!(
        modern.contains("\"message:IsRead\"") && !modern.contains("\"item:IsRead\""),
        "IsRead is a MessageType property; its FieldURI is message:IsRead"
    );
}

#[test]
fn get_item_calendar_shape_lists_calendar_fields() {
    let body = get_item_body(ItemShape::CalendarItem, &[ItemId::new("X", "")], ServerVersion::Exchange2010Sp2);
    assert!(body.contains("calendar:Recurrence"));
    assert!(body.contains("calendar:ModifiedOccurrences"));
    assert!(body.contains("calendar:DeletedOccurrences"));
    assert!(body.contains("calendar:UID"));
    assert!(!body.contains("<t:IncludeMimeContent>"));
}

#[test]
fn get_item_contact_shape_requests_all_properties() {
    let body = get_item_body(ItemShape::Contact, &[ItemId::new("X", "")], ServerVersion::Exchange2013Sp1);
    assert!(body.contains("<t:BaseShape>AllProperties</t:BaseShape>"));
}

#[test]
fn sync_folder_items_body_carries_state_and_max() {
    let folder = FolderId::new("FID", "FCK");
    let body = sync_folder_items_body(&folder, "STATE", 512, ServerVersion::Exchange2013Sp1);
    assert!(body.contains("<m:SyncFolderId><t:FolderId Id=\"FID\" ChangeKey=\"FCK\"/>"));
    assert!(body.contains("<m:SyncState>STATE</m:SyncState>"));
    assert!(body.contains("<m:MaxChangesReturned>512</m:MaxChangesReturned>"));
    assert!(body.contains("<m:SyncScope>NormalItems</m:SyncScope>"));
}

#[test]
fn sync_scope_omitted_below_exchange_2010() {
    let folder = FolderId::new("FID", "");
    let modern = sync_folder_items_body(&folder, "", 100, ServerVersion::Exchange2010);
    assert!(modern.contains("<m:SyncScope>NormalItems</m:SyncScope>"));
    let legacy = sync_folder_items_body(&folder, "", 100, ServerVersion::Exchange2007);
    assert!(!legacy.contains("SyncScope"), "SyncScope is an Exchange 2010 addition");
}

#[test]
fn calendar_timezone_fields_gated_on_exchange_2010() {
    let modern = get_item_body(ItemShape::CalendarItem, &[ItemId::new("X", "")], ServerVersion::Exchange2010);
    assert!(modern.contains("calendar:StartTimeZone"));
    assert!(modern.contains("calendar:EndTimeZone"));
    let legacy = get_item_body(ItemShape::CalendarItem, &[ItemId::new("X", "")], ServerVersion::Exchange2007);
    assert!(!legacy.contains("TimeZone"), "StartTimeZone/EndTimeZone are Exchange 2010 additions");
}

#[test]
fn sync_folder_items_empty_state_round_trips() {
    let folder = FolderId::new("FID", "");
    let body = sync_folder_items_body(&folder, "", 100, ServerVersion::Exchange2013Sp1);
    assert!(body.contains("<m:SyncState></m:SyncState>"));
}

#[test]
fn get_attachment_lists_ids() {
    let body = get_attachment_body(&["AID1", "AID2"]);
    assert!(body.contains("<t:AttachmentId Id=\"AID1\"/>"));
    assert!(body.contains("<t:AttachmentId Id=\"AID2\"/>"));
    assert!(body.contains("<t:IncludeMimeContent>true</t:IncludeMimeContent>"));
}

#[test]
fn get_folder_emits_distinguished_ids() {
    let body = get_folder_body(
        &[
            FolderRef::Distinguished(DistinguishedFolderId::Inbox),
            FolderRef::Distinguished(DistinguishedFolderId::SentItems),
        ],
        FolderShape::IdOnly,
    );
    assert!(body.contains("<t:DistinguishedFolderId Id=\"inbox\"/>"));
    assert!(body.contains("<t:DistinguishedFolderId Id=\"sentitems\"/>"));
    assert!(body.contains("<t:BaseShape>IdOnly</t:BaseShape>"));
}

#[test]
fn ids_with_metacharacters_are_escaped_in_bodies() {
    let folder = FolderId::new("A<B", "C&D");
    let body = find_item_body(FolderRef::Concrete(&folder), Traversal::Shallow, 0, 10);
    assert!(body.contains("<t:FolderId Id=\"A&lt;B\" ChangeKey=\"C&amp;D\"/>"));
}
