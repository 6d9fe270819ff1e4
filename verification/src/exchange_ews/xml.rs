//! Request bodies for the EWS operations the importer uses.

use vstd::prelude::*;
use crate::exchange_ews::soap::write_escaped;
use crate::exchange_ews::types::{distinguished_name, version_rank, DistinguishedFolderId, FolderId, ItemId, ServerVersion};
use crate::text::{decimal, decimal_string, xml_escape};

verus! {

#[derive(Debug, Clone, Copy)]
pub enum FolderRef<'a> {
    Distinguished(DistinguishedFolderId),
    Concrete(&'a FolderId),
}

#[derive(Debug, Clone, Copy)]
pub enum FolderShape {
    IdOnly,
}

impl FolderShape {
    fn as_str(self) -> (r: &'static str)
        ensures
            r@ == "IdOnly"@,
    {
        match self {
            FolderShape::IdOnly => "IdOnly",
        }
    }
}

#[derive(Debug, Clone, Copy)]
pub enum Traversal {
    Shallow,
    Deep,
}

pub open spec fn traversal_name(t: Traversal) -> Seq<char> {
    match t {
        Traversal::Shallow => "Shallow"@,
        Traversal::Deep => "Deep"@,
    }
}

impl Traversal {
    fn as_str(self) -> (r: &'static str)
        ensures
            r@ == traversal_name(self),
    {
        match self {
            Traversal::Shallow => "Shallow",
            Traversal::Deep => "Deep",
        }
    }
}

/// The value of an `Id` attribute and its closing quote, then a `ChangeKey`
/// attribute when the key is not empty.
pub open spec fn id_attrs(id: Seq<char>, change_key: Seq<char>) -> Seq<char> {
    xml_escape(id) + "\""@ + if change_key.len() > 0 {
        " ChangeKey=\""@ + xml_escape(change_key) + "\""@
    } else {
        Seq::empty()
    }
}

pub open spec fn folder_id_element(f: FolderId) -> Seq<char> {
    "<t:FolderId Id=\""@ + id_attrs(f.id@, f.change_key@) + "/>"@
}

pub open spec fn item_id_element(i: ItemId) -> Seq<char> {
    "<t:ItemId Id=\""@ + id_attrs(i.id@, i.change_key@) + "/>"@
}

pub open spec fn folder_ref_element(r: FolderRef) -> Seq<char> {
    match r {
        FolderRef::Distinguished(d) => "<t:DistinguishedFolderId Id=\""@ + distinguished_name(d) + "\"/>"@,
        FolderRef::Concrete(f) => folder_id_element(*f),
    }
}

pub fn write_folder_id_element(out: &mut String, folder: &FolderId)
    ensures
        final(out)@ == old(out)@ + folder_id_element(*folder),
{
    out.append("<t:FolderId Id=\"");
    write_escaped(out, folder.id.as_str());
    out.append("\"");
    if !folder.change_key.as_str().is_empty() {
        out.append(" ChangeKey=\"");
        write_escaped(out, folder.change_key.as_str());
        out.append("\"");
    }
    out.append("/>");
}

pub fn write_item_id_element(out: &mut String, id: &ItemId)
    ensures
        final(out)@ == old(out)@ + item_id_element(*id),
{
    out.append("<t:ItemId Id=\"");
    write_escaped(out, id.id.as_str());
    out.append("\"");
    if !id.change_key.as_str().is_empty() {
        out.append(" ChangeKey=\"");
        write_escaped(out, id.change_key.as_str());
        out.append("\"");
    }
    out.append("/>");
}

fn write_folder_ref(out: &mut String, parent: FolderRef<'_>)
    ensures
        final(out)@ == old(out)@ + folder_ref_element(parent),
{
    match parent {
        FolderRef::Distinguished(d) => {
            out.append("<t:DistinguishedFolderId Id=\"");
            out.append(d.as_str());
            out.append("\"/>");
        },
        FolderRef::Concrete(f) => write_folder_id_element(out, f),
    }
}

pub open spec fn find_folder_text(parent: FolderRef, traversal: Traversal) -> Seq<char> {
    "<m:FindFolder Traversal=\""@ + traversal_name(traversal) + "\"><m:FolderShape>"@
        + "<t:BaseShape>Default</t:BaseShape>"@ + "<t:AdditionalProperties>"@
        + "<t:FieldURI FieldURI=\"folder:FolderClass\"/>"@
        + "<t:FieldURI FieldURI=\"folder:DisplayName\"/>"@
        + "<t:FieldURI FieldURI=\"folder:ParentFolderId\"/>"@
        + "<t:FieldURI FieldURI=\"folder:TotalCount\"/>"@
        + "<t:FieldURI FieldURI=\"folder:ChildFolderCount\"/>"@ + "</t:AdditionalProperties>"@
        + "</m:FolderShape><m:ParentFolderIds>"@ + folder_ref_element(parent)
        + "</m:ParentFolderIds></m:FindFolder>"@
}

pub fn find_folder_body(parent: FolderRef<'_>, traversal: Traversal) -> (r: String)
    ensures
        r@ == find_folder_text(parent, traversal),
{
    let mut out = String::new();
    out.append("<m:FindFolder Traversal=\"");
    out.append(traversal.as_str());
    out.append("\"><m:FolderShape>");
    out.append("<t:BaseShape>Default</t:BaseShape>");
    out.append("<t:AdditionalProperties>");
    out.append("<t:FieldURI FieldURI=\"folder:FolderClass\"/>");
    out.append("<t:FieldURI FieldURI=\"folder:DisplayName\"/>");
    out.append("<t:FieldURI FieldURI=\"folder:ParentFolderId\"/>");
    out.append("<t:FieldURI FieldURI=\"folder:TotalCount\"/>");
    out.append("<t:FieldURI FieldURI=\"folder:ChildFolderCount\"/>");
    out.append("</t:AdditionalProperties>");
    out.append("</m:FolderShape><m:ParentFolderIds>");
    write_folder_ref(&mut out, parent);
    out.append("</m:ParentFolderIds></m:FindFolder>");
    out
}

/// The elements of the first `n` folder references.
pub open spec fn folder_refs_text(folders: Seq<FolderRef>, n: int) -> Seq<char>
    decreases n,
{
    if n <= 0 {
        Seq::empty()
    } else {
        folder_refs_text(folders, n - 1) + folder_ref_element(folders[n - 1])
    }
}

pub fn get_folder_body(folders: &[FolderRef<'_>], shape: FolderShape) -> (r: String)
    ensures
        r@ == "<m:GetFolder><m:FolderShape>"@ + "<t:BaseShape>"@ + "IdOnly"@ + "</t:BaseShape>"@
            + "</m:FolderShape><m:FolderIds>"@ + folder_refs_text(folders@, folders@.len() as int)
            + "</m:FolderIds></m:GetFolder>"@,
{
    let mut out = String::new();
    out.append("<m:GetFolder><m:FolderShape>");
    out.append("<t:BaseShape>");
    out.append(shape.as_str());
    out.append("</t:BaseShape>");
    out.append("</m:FolderShape><m:FolderIds>");
    let ghost start = out@;
    let mut i: usize = 0;
    while i < folders.len()
        invariant
            i <= folders@.len(),
            out@ == start + folder_refs_text(folders@, i as int),
        decreases folders.len() - i,
    {
        write_folder_ref(&mut out, folders[i]);
        i += 1;
    }
    out.append("</m:FolderIds></m:GetFolder>");
    out
}

pub open spec fn find_item_text(parent: FolderRef, traversal: Traversal, offset: u32, page_size: u32) -> Seq<char> {
    "<m:FindItem Traversal=\""@ + traversal_name(traversal)
        + "\"><m:ItemShape><t:BaseShape>IdOnly</t:BaseShape></m:ItemShape>"@
        + "<m:IndexedPageItemView MaxEntriesReturned=\""@ + decimal(page_size as nat) + "\" Offset=\""@
        + decimal(offset as nat) + "\" BasePoint=\"Beginning\"/>"@
        + "<m:SortOrder><t:FieldOrder Order=\"Ascending\"><t:FieldURI FieldURI=\"item:DateTimeCreated\"/></t:FieldOrder></m:SortOrder>"@
        + "<m:ParentFolderIds>"@ + folder_ref_element(parent) + "</m:ParentFolderIds></m:FindItem>"@
}

/// A page of item ids, oldest first, so that paging is stable.
pub fn find_item_body(parent: FolderRef<'_>, traversal: Traversal, offset: u32, page_size: u32) -> (r: String)
    ensures
        r@ == find_item_text(parent, traversal, offset, page_size),
{
    let mut out = String::new();
    out.append("<m:FindItem Traversal=\"");
    out.append(traversal.as_str());
    out.append("\"><m:ItemShape><t:BaseShape>IdOnly</t:BaseShape></m:ItemShape>");
    out.append("<m:IndexedPageItemView MaxEntriesReturned=\"");
    let ps = decimal_string(page_size as u64);
    out.append(ps.as_str());
    out.append("\" Offset=\"");
    let off = decimal_string(offset as u64);
    out.append(off.as_str());
    out.append("\" BasePoint=\"Beginning\"/>");
    out.append(
        "<m:SortOrder><t:FieldOrder Order=\"Ascending\"><t:FieldURI FieldURI=\"item:DateTimeCreated\"/></t:FieldOrder></m:SortOrder>",
    );
    out.append("<m:ParentFolderIds>");
    write_folder_ref(&mut out, parent);
    out.append("</m:ParentFolderIds></m:FindItem>");
    out
}

pub open spec fn sync_items_text(folder: FolderId, sync_state: Seq<char>, max_changes: u32, version: ServerVersion) -> Seq<char> {
    "<m:SyncFolderItems><m:ItemShape>"@ + "<t:BaseShape>IdOnly</t:BaseShape>"@
        + "</m:ItemShape><m:SyncFolderId>"@ + folder_id_element(folder) + "</m:SyncFolderId>"@
        + "<m:SyncState>"@ + xml_escape(sync_state) + "</m:SyncState>"@ + "<m:MaxChangesReturned>"@
        + decimal(max_changes as nat) + "</m:MaxChangesReturned>"@ + (if version_rank(version) >= 1 {
        "<m:SyncScope>NormalItems</m:SyncScope>"@
    } else {
        Seq::empty()
    }) + "</m:SyncFolderItems>"@
}

/// One batch of changes in a folder since `sync_state`; the sync scope is
/// only sent to Exchange 2010 and later.
pub fn sync_folder_items_body(folder: &FolderId, sync_state: &str, max_changes: u32, version: ServerVersion) -> (r: String)
    ensures
        r@ == sync_items_text(*folder, sync_state@, max_changes, version),
{
    let mut out = String::new();
    out.append("<m:SyncFolderItems><m:ItemShape>");
    out.append("<t:BaseShape>IdOnly</t:BaseShape>");
    out.append("</m:ItemShape><m:SyncFolderId>");
    write_folder_id_element(&mut out, folder);
    out.append("</m:SyncFolderId>");
    out.append("<m:SyncState>");
    write_escaped(&mut out, sync_state);
    out.append("</m:SyncState>");
    out.append("<m:MaxChangesReturned>");
    let mc = decimal_string(max_changes as u64);
    out.append(mc.as_str());
    out.append("</m:MaxChangesReturned>");
    if version.rank() >= 1 {
        out.append("<m:SyncScope>NormalItems</m:SyncScope>");
    }
    out.append("</m:SyncFolderItems>");
    out
}

#[derive(Debug, Clone, Copy)]
pub enum ItemShape {
    Message,
    CalendarItem,
    Contact,
}

/// The calendar properties requested for every calendar item.
pub open spec fn calendar_fields() -> Seq<Seq<char>> {
    seq![
        "calendar:UID"@,
        "calendar:RecurrenceId"@,
        "calendar:Start"@,
        "calendar:End"@,
        "calendar:OriginalStart"@,
        "calendar:IsAllDayEvent"@,
        "calendar:LegacyFreeBusyStatus"@,
        "calendar:Location"@,
        "calendar:IsRecurring"@,
        "calendar:CalendarItemType"@,
        "calendar:Organizer"@,
        "calendar:RequiredAttendees"@,
        "calendar:OptionalAttendees"@,
        "calendar:Resources"@,
        "calendar:IsOnlineMeeting"@,
        "calendar:MeetingWorkspaceUrl"@,
        "calendar:NetShowUrl"@,
        "item:ReminderIsSet"@,
        "item:ReminderMinutesBeforeStart"@,
        "calendar:Recurrence"@,
        "calendar:ModifiedOccurrences"@,
        "calendar:DeletedOccurrences"@,
        "calendar:Duration"@,
        "item:Subject"@,
        "item:Body"@,
        "item:Categories"@,
        "item:DateTimeCreated"@,
        "item:LastModifiedTime"@,
        "item:ParentFolderId"@,
    ]
}

/// `FieldURI` elements for the first `n` fields.
pub open spec fn field_uris(fields: Seq<Seq<char>>, n: int) -> Seq<char>
    decreases n,
{
    if n <= 0 {
        Seq::empty()
    } else {
        field_uris(fields, n - 1) + "<t:FieldURI FieldURI=\""@ + fields[n - 1] + "\"/>"@
    }
}

pub open spec fn item_shape_text(shape: ItemShape, version: ServerVersion) -> Seq<char> {
    match shape {
        ItemShape::Message => "<t:BaseShape>IdOnly</t:BaseShape>"@
            + "<t:IncludeMimeContent>true</t:IncludeMimeContent>"@ + "<t:BodyType>Best</t:BodyType>"@
            + "<t:AdditionalProperties>"@ + "<t:FieldURI FieldURI=\"item:DateTimeReceived\"/>"@
            + "<t:FieldURI FieldURI=\"message:IsRead\"/>"@ + "<t:FieldURI FieldURI=\"item:IsDraft\"/>"@
            + "<t:FieldURI FieldURI=\"item:Categories\"/>"@
            + "<t:FieldURI FieldURI=\"item:ParentFolderId\"/>"@ + (if version_rank(version) >= 4 {
            "<t:FieldURI FieldURI=\"item:Flag\"/>"@
        } else {
            Seq::empty()
        }) + "<t:FieldURI FieldURI=\"message:IsReadReceiptRequested\"/>"@
            + "</t:AdditionalProperties>"@,
        ItemShape::CalendarItem => "<t:BaseShape>IdOnly</t:BaseShape>"@ + "<t:BodyType>Best</t:BodyType>"@
            + "<t:AdditionalProperties>"@ + field_uris(calendar_fields(), calendar_fields().len() as int)
            + (if version_rank(version) >= 1 {
            "<t:FieldURI FieldURI=\"calendar:StartTimeZone\"/>"@
                + "<t:FieldURI FieldURI=\"calendar:EndTimeZone\"/>"@
        } else {
            Seq::empty()
        }) + "</t:AdditionalProperties>"@,
        ItemShape::Contact => "<t:BaseShape>AllProperties</t:BaseShape>"@,
    }
}

/// The `ItemId` elements of the first `n` ids.
pub open spec fn item_ids_text(ids: Seq<ItemId>, n: int) -> Seq<char>
    decreases n,
{
    if n <= 0 {
        Seq::empty()
    } else {
        item_ids_text(ids, n - 1) + item_id_element(ids[n - 1])
    }
}

fn write_calendar_fields(out: &mut String)
    ensures
        final(out)@ == old(out)@ + field_uris(calendar_fields(), calendar_fields().len() as int),
{
    let fields: [&str; 29] = [
        "calendar:UID",
        "calendar:RecurrenceId",
        "calendar:Start",
        "calendar:End",
        "calendar:OriginalStart",
        "calendar:IsAllDayEvent",
        "calendar:LegacyFreeBusyStatus",
        "calendar:Location",
        "calendar:IsRecurring",
        "calendar:CalendarItemType",
        "calendar:Organizer",
        "calendar:RequiredAttendees",
        "calendar:OptionalAttendees",
        "calendar:Resources",
        "calendar:IsOnlineMeeting",
        "calendar:MeetingWorkspaceUrl",
        "calendar:NetShowUrl",
        "item:ReminderIsSet",
        "item:ReminderMinutesBeforeStart",
        "calendar:Recurrence",
        "calendar:ModifiedOccurrences",
        "calendar:DeletedOccurrences",
        "calendar:Duration",
        "item:Subject",
        "item:Body",
        "item:Categories",
        "item:DateTimeCreated",
        "item:LastModifiedTime",
        "item:ParentFolderId",
    ];
    let ghost fv = fields@.map_values(|f: &str| f@);
    assert(fv =~= calendar_fields());
    let ghost start = out@;
    let mut i: usize = 0;
    while i < 29
        invariant
            fv == fields@.map_values(|f: &str| f@),
            fields@.len() == 29,
            i <= 29,
            out@ == start + field_uris(fv, i as int),
        decreases 29 - i,
    {
        out.append("<t:FieldURI FieldURI=\"");
        out.append(fields[i]);
        out.append("\"/>");
        i += 1;
    }
}

pub fn get_item_body(shape: ItemShape, ids: &[ItemId], version: ServerVersion) -> (r: String)
    ensures
        r@ == "<m:GetItem><m:ItemShape>"@ + item_shape_text(shape, version) + "</m:ItemShape><m:ItemIds>"@
            + item_ids_text(ids@, ids@.len() as int) + "</m:ItemIds></m:GetItem>"@,
{
    let mut out = String::new();
    out.append("<m:GetItem><m:ItemShape>");
    match shape {
        ItemShape::Message => {
            out.append("<t:BaseShape>IdOnly</t:BaseShape>");
            out.append("<t:IncludeMimeContent>true</t:IncludeMimeContent>");
            out.append("<t:BodyType>Best</t:BodyType>");
            out.append("<t:AdditionalProperties>");
            out.append("<t:FieldURI FieldURI=\"item:DateTimeReceived\"/>");
            out.append("<t:FieldURI FieldURI=\"message:IsRead\"/>");
            out.append("<t:FieldURI FieldURI=\"item:IsDraft\"/>");
            out.append("<t:FieldURI FieldURI=\"item:Categories\"/>");
            out.append("<t:FieldURI FieldURI=\"item:ParentFolderId\"/>");
            if version.rank() >= 4 {
                out.append("<t:FieldURI FieldURI=\"item:Flag\"/>");
            }
            out.append("<t:FieldURI FieldURI=\"message:IsReadReceiptRequested\"/>");
            out.append("</t:AdditionalProperties>");
        },
        ItemShape::CalendarItem => {
            out.append("<t:BaseShape>IdOnly</t:BaseShape>");
            out.append("<t:BodyType>Best</t:BodyType>");
            out.append("<t:AdditionalProperties>");
            write_calendar_fields(&mut out);
            if version.rank() >= 1 {
                out.append("<t:FieldURI FieldURI=\"calendar:StartTimeZone\"/>");
                out.append("<t:FieldURI FieldURI=\"calendar:EndTimeZone\"/>");
            }
            out.append("</t:AdditionalProperties>");
        },
        ItemShape::Contact => {
            out.append("<t:BaseShape>AllProperties</t:BaseShape>");
        },
    }
    out.append("</m:ItemShape><m:ItemIds>");
    let ghost start = out@;
    let mut i: usize = 0;
    while i < ids.len()
        invariant
            i <= ids@.len(),
            out@ == start + item_ids_text(ids@, i as int),
        decreases ids.len() - i,
    {
        write_item_id_element(&mut out, &ids[i]);
        i += 1;
    }
    out.append("</m:ItemIds></m:GetItem>");
    out
}

/// `AttachmentId` elements for the first `n` ids.
pub open spec fn attachment_ids_text(ids: Seq<Seq<char>>, n: int) -> Seq<char>
    decreases n,
{
    if n <= 0 {
        Seq::empty()
    } else {
        attachment_ids_text(ids, n - 1) + "<t:AttachmentId Id=\""@ + xml_escape(ids[n - 1]) + "\"/>"@
    }
}

pub fn get_attachment_body(ids: &[&str]) -> (r: String)
    ensures
        r@ == "<m:GetAttachment><m:AttachmentShape>"@ + "<t:IncludeMimeContent>true</t:IncludeMimeContent>"@
            + "<t:BodyType>Best</t:BodyType>"@ + "</m:AttachmentShape><m:AttachmentIds>"@
            + attachment_ids_text(ids@.map_values(|s: &str| s@), ids@.len() as int)
            + "</m:AttachmentIds></m:GetAttachment>"@,
{
    let ghost iv = ids@.map_values(|s: &str| s@);
    let mut out = String::new();
    out.append("<m:GetAttachment><m:AttachmentShape>");
    out.append("<t:IncludeMimeContent>true</t:IncludeMimeContent>");
    out.append("<t:BodyType>Best</t:BodyType>");
    out.append("</m:AttachmentShape><m:AttachmentIds>");
    let ghost start = out@;
    let mut i: usize = 0;
    while i < ids.len()
        invariant
            iv == ids@.map_values(|s: &str| s@),
            i <= ids@.len(),
            out@ == start + attachment_ids_text(iv, i as int),
        decreases ids.len() - i,
    {
        out.append("<t:AttachmentId Id=\"");
        write_escaped(&mut out, ids[i]);
        out.append("\"/>");
        i += 1;
    }
    out.append("</m:AttachmentIds></m:GetAttachment>");
    out
}

} // verus!
