//! Exchange Web Services identifiers, versions, folder classes and response codes.

use vstd::prelude::*;
use crate::text::{chars_of, lower_seq, str_eq};

verus! {

#[derive(Debug, Clone, Default)]
pub struct ItemId {
    pub id: String,
    pub change_key: String,
}

impl ItemId {
    pub fn new(id: &str, change_key: &str) -> (r: ItemId)
        ensures
            r.id@ == id@,
            r.change_key@ == change_key@,
    {
        ItemId { id: id.to_owned(), change_key: change_key.to_owned() }
    }
}

#[derive(Debug, Clone, Default)]
pub struct FolderId {
    pub id: String,
    pub change_key: String,
}

impl FolderId {
    pub fn new(id: &str, change_key: &str) -> (r: FolderId)
        ensures
            r.id@ == id@,
            r.change_key@ == change_key@,
    {
        FolderId { id: id.to_owned(), change_key: change_key.to_owned() }
    }
}

#[derive(Debug, Clone, Copy, PartialEq, Eq, Structural)]
pub enum MailboxKind {
    Primary,
    Archive,
    PublicFolders,
}

impl MailboxKind {
    pub fn as_str(self) -> (r: &'static str)
        ensures
            r@ == match self {
                MailboxKind::Primary => "primary"@,
                MailboxKind::Archive => "archive"@,
                MailboxKind::PublicFolders => "public-folders"@,
            },
    {
        match self {
            MailboxKind::Primary => "primary",
            MailboxKind::Archive => "archive",
            MailboxKind::PublicFolders => "public-folders",
        }
    }

    /// The distinguished folder at the root of the mailbox.
    pub fn distinguished_root(self) -> (r: DistinguishedFolderId)
        ensures
            r == match self {
                MailboxKind::Primary => DistinguishedFolderId::MsgFolderRoot,
                MailboxKind::Archive => DistinguishedFolderId::ArchiveRoot,
                MailboxKind::PublicFolders => DistinguishedFolderId::PublicFoldersRoot,
            },
    {
        match self {
            MailboxKind::Primary => DistinguishedFolderId::MsgFolderRoot,
            MailboxKind::Archive => DistinguishedFolderId::ArchiveRoot,
            MailboxKind::PublicFolders => DistinguishedFolderId::PublicFoldersRoot,
        }
    }
}

#[derive(Debug, Clone, Copy, PartialEq, Eq, Structural)]
pub enum DistinguishedFolderId {
    MsgFolderRoot,
    ArchiveRoot,
    PublicFoldersRoot,
    Inbox,
    SentItems,
    Drafts,
    DeletedItems,
    JunkEmail,
    Outbox,
    ConversationHistory,
    Archive,
}

pub open spec fn distinguished_name(d: DistinguishedFolderId) -> Seq<char> {
    match d {
        DistinguishedFolderId::MsgFolderRoot => "msgfolderroot"@,
        DistinguishedFolderId::ArchiveRoot => "archiveroot"@,
        DistinguishedFolderId::PublicFoldersRoot => "publicfoldersroot"@,
        DistinguishedFolderId::Inbox => "inbox"@,
        DistinguishedFolderId::SentItems => "sentitems"@,
        DistinguishedFolderId::Drafts => "drafts"@,
        DistinguishedFolderId::DeletedItems => "deleteditems"@,
        DistinguishedFolderId::JunkEmail => "junkemail"@,
        DistinguishedFolderId::Outbox => "outbox"@,
        DistinguishedFolderId::ConversationHistory => "conversationhistory"@,
        DistinguishedFolderId::Archive => "archive"@,
    }
}

impl DistinguishedFolderId {
    pub fn as_str(self) -> (r: &'static str)
        ensures
            r@ == distinguished_name(self),
    {
        match self {
            DistinguishedFolderId::MsgFolderRoot => "msgfolderroot",
            DistinguishedFolderId::ArchiveRoot => "archiveroot",
            DistinguishedFolderId::PublicFoldersRoot => "publicfoldersroot",
            DistinguishedFolderId::Inbox => "inbox",
            DistinguishedFolderId::SentItems => "sentitems",
            DistinguishedFolderId::Drafts => "drafts",
            DistinguishedFolderId::DeletedItems => "deleteditems",
            DistinguishedFolderId::JunkEmail => "junkemail",
            DistinguishedFolderId::Outbox => "outbox",
            DistinguishedFolderId::ConversationHistory => "conversationhistory",
            DistinguishedFolderId::Archive => "archive",
        }
    }
}

/// Exchange schema versions, oldest first.
#[derive(Debug, Clone, Copy, PartialEq, Eq, PartialOrd, Ord, Structural)]
pub enum ServerVersion {
    Exchange2007,
    Exchange2010,
    Exchange2010Sp1,
    Exchange2010Sp2,
    Exchange2013,
    Exchange2013Sp1,
    Exchange2016,
    Exchange2019,
}

/// The position of a version in release order.
pub open spec fn version_rank(v: ServerVersion) -> nat {
    match v {
        ServerVersion::Exchange2007 => 0,
        ServerVersion::Exchange2010 => 1,
        ServerVersion::Exchange2010Sp1 => 2,
        ServerVersion::Exchange2010Sp2 => 3,
        ServerVersion::Exchange2013 => 4,
        ServerVersion::Exchange2013Sp1 => 5,
        ServerVersion::Exchange2016 => 6,
        ServerVersion::Exchange2019 => 7,
    }
}

pub open spec fn version_name(v: ServerVersion) -> Seq<char> {
    match v {
        ServerVersion::Exchange2007 => "Exchange2007"@,
        ServerVersion::Exchange2010 => "Exchange2010"@,
        ServerVersion::Exchange2010Sp1 => "Exchange2010_SP1"@,
        ServerVersion::Exchange2010Sp2 => "Exchange2010_SP2"@,
        ServerVersion::Exchange2013 => "Exchange2013"@,
        ServerVersion::Exchange2013Sp1 => "Exchange2013_SP1"@,
        ServerVersion::Exchange2016 => "Exchange2016"@,
        ServerVersion::Exchange2019 => "Exchange2019"@,
    }
}

/// The version that a server build number announces.
pub open spec fn version_of_build(major: u32, minor: u32) -> ServerVersion {
    if major == 8 {
        ServerVersion::Exchange2007
    } else if major == 14 && minor == 0 {
        ServerVersion::Exchange2010
    } else if major == 14 && minor == 1 {
        ServerVersion::Exchange2010Sp1
    } else if major == 14 && (minor == 2 || minor == 3) {
        ServerVersion::Exchange2010Sp2
    } else if major == 15 && minor == 0 {
        ServerVersion::Exchange2013
    } else if major == 15 && minor == 1 {
        ServerVersion::Exchange2016
    } else if major >= 15 {
        ServerVersion::Exchange2019
    } else {
        ServerVersion::Exchange2016
    }
}

impl ServerVersion {
    pub fn as_str(self) -> (r: &'static str)
        ensures
            r@ == version_name(self),
    {
        match self {
            ServerVersion::Exchange2007 => "Exchange2007",
            ServerVersion::Exchange2010 => "Exchange2010",
            ServerVersion::Exchange2010Sp1 => "Exchange2010_SP1",
            ServerVersion::Exchange2010Sp2 => "Exchange2010_SP2",
            ServerVersion::Exchange2013 => "Exchange2013",
            ServerVersion::Exchange2013Sp1 => "Exchange2013_SP1",
            ServerVersion::Exchange2016 => "Exchange2016",
            ServerVersion::Exchange2019 => "Exchange2019",
        }
    }

    /// The release-order position of the version.
    pub fn rank(self) -> (r: u8)
        ensures
            r == version_rank(self),
    {
        match self {
            ServerVersion::Exchange2007 => 0,
            ServerVersion::Exchange2010 => 1,
            ServerVersion::Exchange2010Sp1 => 2,
            ServerVersion::Exchange2010Sp2 => 3,
            ServerVersion::Exchange2013 => 4,
            ServerVersion::Exchange2013Sp1 => 5,
            ServerVersion::Exchange2016 => 6,
            ServerVersion::Exchange2019 => 7,
        }
    }

    pub fn from_build(major: u32, minor: u32) -> (r: ServerVersion)
        ensures
            r == version_of_build(major, minor),
    {
        if major == 8 {
            ServerVersion::Exchange2007
        } else if major == 14 && minor == 0 {
            ServerVersion::Exchange2010
        } else if major == 14 && minor == 1 {
            ServerVersion::Exchange2010Sp1
        } else if major == 14 && (minor == 2 || minor == 3) {
            ServerVersion::Exchange2010Sp2
        } else if major == 15 && minor == 0 {
            ServerVersion::Exchange2013
        } else if major == 15 && minor == 1 {
            ServerVersion::Exchange2016
        } else if major >= 15 {
            ServerVersion::Exchange2019
        } else {
            ServerVersion::Exchange2016
        }
    }

    /// The next older version to fall back to: one rank lower, none below
    /// Exchange 2007.
    pub fn lower(self) -> (r: Option<ServerVersion>)
        ensures
            r == version_below(self),
    {
        match self {
            ServerVersion::Exchange2019 => Some(ServerVersion::Exchange2016),
            ServerVersion::Exchange2016 => Some(ServerVersion::Exchange2013Sp1),
            ServerVersion::Exchange2013Sp1 => Some(ServerVersion::Exchange2013),
            ServerVersion::Exchange2013 => Some(ServerVersion::Exchange2010Sp2),
            ServerVersion::Exchange2010Sp2 => Some(ServerVersion::Exchange2010Sp1),
            ServerVersion::Exchange2010Sp1 => Some(ServerVersion::Exchange2010),
            ServerVersion::Exchange2010 => Some(ServerVersion::Exchange2007),
            ServerVersion::Exchange2007 => None,
        }
    }
}

/// The next older version: one rank lower, none below Exchange 2007.
pub open spec fn version_below(v: ServerVersion) -> Option<ServerVersion> {
    match v {
        ServerVersion::Exchange2019 => Some(ServerVersion::Exchange2016),
        ServerVersion::Exchange2016 => Some(ServerVersion::Exchange2013Sp1),
        ServerVersion::Exchange2013Sp1 => Some(ServerVersion::Exchange2013),
        ServerVersion::Exchange2013 => Some(ServerVersion::Exchange2010Sp2),
        ServerVersion::Exchange2010Sp2 => Some(ServerVersion::Exchange2010Sp1),
        ServerVersion::Exchange2010Sp1 => Some(ServerVersion::Exchange2010),
        ServerVersion::Exchange2010 => Some(ServerVersion::Exchange2007),
        ServerVersion::Exchange2007 => None,
    }
}

/// The version reached after stepping down `n` times (none once the floor
/// was passed).
pub open spec fn stepped_down(v: ServerVersion, n: nat) -> Option<ServerVersion>
    decreases n,
{
    if n == 0 {
        Some(v)
    } else {
        match version_below(v) {
            Some(w) => stepped_down(w, (n - 1) as nat),
            None => None,
        }
    }
}

/// Each step down the version ladder goes exactly one rank lower, and from
/// any version the ladder reaches Exchange 2007, where it stops.
pub proof fn law_ladder_descends_to_floor(v: ServerVersion)
    ensures
        version_below(v) matches Some(w) ==> version_rank(w) + 1 == version_rank(v),
        version_below(v) is None <==> v == ServerVersion::Exchange2007,
        stepped_down(v, version_rank(v)) == Some(ServerVersion::Exchange2007),
    decreases version_rank(v),
{
    if let Some(w) = version_below(v) {
        law_ladder_descends_to_floor(w);
    }
}

/// The rank determines the version.
pub proof fn lemma_rank_injective(a: ServerVersion, b: ServerVersion)
    requires
        version_rank(a) == version_rank(b),
    ensures
        a == b,
{
}

/// Characters that `str::trim` removes (Unicode White_Space).
pub open spec fn is_white_space(c: char) -> bool {
    let u = c as u32;
    (0x09 <= u <= 0x0d) || u == 0x20 || u == 0x85 || u == 0xa0 || u == 0x1680 || (0x2000 <= u <= 0x200a)
        || u == 0x2028 || u == 0x2029 || u == 0x202f || u == 0x205f || u == 0x3000
}

pub open spec fn lead_ws(s: Seq<char>, i: int) -> int
    decreases s.len() - i,
{
    if 0 <= i < s.len() && is_white_space(s[i]) {
        lead_ws(s, i + 1)
    } else {
        i
    }
}

pub open spec fn trail_end(s: Seq<char>, j: int, lo: int) -> int
    decreases j - lo,
{
    if lo < j && j <= s.len() && is_white_space(s[j - 1]) {
        trail_end(s, j - 1, lo)
    } else {
        j
    }
}

/// The text without leading and trailing white space.
pub open spec fn trimmed(s: Seq<char>) -> Seq<char> {
    let a = lead_ws(s, 0);
    s.subrange(a, trail_end(s, s.len() as int, a))
}

pub(crate) fn is_ws(c: char) -> (r: bool)
    ensures
        r == is_white_space(c),
{
    let u = c as u32;
    (0x09 <= u && u <= 0x0d) || u == 0x20 || u == 0x85 || u == 0xa0 || u == 0x1680 || (0x2000 <= u
        && u <= 0x200a) || u == 0x2028 || u == 0x2029 || u == 0x202f || u == 0x205f || u == 0x3000
}

pub(crate) proof fn lemma_lead_ws(s: Seq<char>, i: int)
    requires
        0 <= i <= s.len(),
    ensures
        i <= lead_ws(s, i) <= s.len(),
    decreases s.len() - i,
{
    if i < s.len() && is_white_space(s[i]) {
        lemma_lead_ws(s, i + 1);
    }
}

pub(crate) proof fn lemma_trail_end(s: Seq<char>, j: int, lo: int)
    requires
        0 <= lo <= j <= s.len(),
    ensures
        lo <= trail_end(s, j, lo) <= j,
    decreases j - lo,
{
    if lo < j && is_white_space(s[j - 1]) {
        lemma_trail_end(s, j - 1, lo);
    }
}

/// `str::trim` followed by `to_ascii_lowercase`, as characters.
fn trim_lower(s: &str) -> (r: Vec<char>)
    ensures
        r@ == lower_seq(trimmed(s@)),
{
    let v = chars_of(s);
    let mut a: usize = 0;
    proof {
        lemma_lead_ws(s@, 0);
    }
    while a < v.len() && is_ws(v[a])
        invariant
            v@ == s@,
            a <= lead_ws(s@, 0),
            lead_ws(s@, a as int) == lead_ws(s@, 0),
            lead_ws(s@, 0) <= s@.len(),
        decreases v.len() - a,
    {
        proof {
            lemma_lead_ws(s@, a + 1);
        }
        a += 1;
    }
    proof {
        lemma_trail_end(s@, s@.len() as int, a as int);
    }
    let mut b: usize = v.len();
    while b > a && is_ws(v[b - 1])
        invariant
            v@ == s@,
            a <= b <= v@.len(),
            trail_end(s@, b as int, a as int) == trail_end(s@, s@.len() as int, a as int),
        decreases b - a,
    {
        b -= 1;
    }
    let mut out: Vec<char> = Vec::new();
    let mut k: usize = a;
    while k < b
        invariant
            v@ == s@,
            a <= k <= b <= v@.len(),
            out@ == lower_seq(s@.subrange(a as int, k as int)),
        decreases b - k,
    {
        out.push(crate::text::lower(v[k]));
        k += 1;
        assert(lower_seq(s@.subrange(a as int, k as int)) =~= lower_seq(s@.subrange(a as int, k - 1)).push(crate::text::lower_char(v@[k - 1])));
    }
    out
}

/// `str::trim`, as characters.
pub fn trim_chars(s: &str) -> (r: String)
    ensures
        r@ == trimmed(s@),
{
    let v = chars_of(s);
    let mut a: usize = 0;
    proof {
        lemma_lead_ws(s@, 0);
    }
    while a < v.len() && is_ws(v[a])
        invariant
            v@ == s@,
            a <= lead_ws(s@, 0),
            lead_ws(s@, a as int) == lead_ws(s@, 0),
            lead_ws(s@, 0) <= s@.len(),
        decreases v.len() - a,
    {
        proof {
            lemma_lead_ws(s@, a + 1);
        }
        a += 1;
    }
    proof {
        lemma_trail_end(s@, s@.len() as int, a as int);
    }
    let mut b: usize = v.len();
    while b > a && is_ws(v[b - 1])
        invariant
            v@ == s@,
            a <= b <= v@.len(),
            trail_end(s@, b as int, a as int) == trail_end(s@, s@.len() as int, a as int),
        decreases b - a,
    {
        b -= 1;
    }
    let mut out = String::new();
    let mut k: usize = a;
    while k < b
        invariant
            v@ == s@,
            a <= k <= b <= v@.len(),
            out@ == s@.subrange(a as int, k as int),
        decreases b - k,
    {
        crate::text::push_char(&mut out, v[k]);
        k += 1;
        assert(s@.subrange(a as int, k as int) =~= s@.subrange(a as int, k - 1).push(v@[k - 1]));
    }
    out
}

/// A lowered folder class is `prefix` or a sub-class `prefix.…` of it.
pub open spec fn class_is(c: Seq<char>, prefix: Seq<char>) -> bool {
    c == prefix || (prefix.len() < c.len() && c.take(prefix.len() as int) == prefix && c[prefix.len() as int] == '.')
}

fn class_matches(lower_class: &Vec<char>, lower_prefix: &str) -> (r: bool)
    ensures
        r == class_is(lower_class@, lower_prefix@),
{
    let p = chars_of(lower_prefix);
    if crate::text::chars_eq(lower_class, &p) {
        return true;
    }
    if p.len() >= lower_class.len() {
        return false;
    }
    let mut i: usize = 0;
    while i < p.len()
        invariant
            p@ == lower_prefix@,
            p@.len() < lower_class@.len(),
            i <= p@.len(),
            forall|j: int| 0 <= j < i ==> lower_class@[j] == p@[j],
        decreases p.len() - i,
    {
        if lower_class[i] != p[i] {
            assert(lower_class@.take(p@.len() as int)[i as int] != p@[i as int]);
            return false;
        }
        i += 1;
    }
    assert(lower_class@.take(p@.len() as int) =~= p@);
    lower_class[p.len()] == '.'
}

#[derive(Debug, Clone, Copy, PartialEq, Eq, Structural)]
pub enum FolderClass {
    Mail,
    Calendar,
    Contacts,
    Skipped,
}

/// Container classes that hold no mail, calendar or contact data.
pub open spec fn skipped_class(c: Seq<char>) -> bool {
    ||| class_is(c, "ipf.task"@)
    ||| class_is(c, "ipf.journal"@)
    ||| class_is(c, "ipf.stickynote"@)
    ||| class_is(c, "ipf.configuration"@)
    ||| class_is(c, "ipf.storeitem"@)
    ||| class_is(c, "ipf.skypeteams"@)
    ||| class_is(c, "ipf.files"@)
    ||| class_is(c, "ipf.note.outlookhomepage"@)
}

/// The kind of folder that a `FolderClass` value names; unknown classes are mail.
pub open spec fn folder_class_of(class: Seq<char>) -> FolderClass {
    let c = lower_seq(trimmed(class));
    if class_is(c, "ipf.appointment"@) {
        FolderClass::Calendar
    } else if class_is(c, "ipf.contact"@) {
        FolderClass::Contacts
    } else if skipped_class(c) {
        FolderClass::Skipped
    } else {
        FolderClass::Mail
    }
}

impl FolderClass {
    pub fn from_ipf(class: &str) -> (r: FolderClass)
        ensures
            r == folder_class_of(class@),
    {
        let lower = trim_lower(class);
        if class_matches(&lower, "ipf.appointment") {
            FolderClass::Calendar
        } else if class_matches(&lower, "ipf.contact") {
            FolderClass::Contacts
        } else if class_matches(&lower, "ipf.task") || class_matches(&lower, "ipf.journal")
            || class_matches(&lower, "ipf.stickynote") || class_matches(&lower, "ipf.configuration")
            || class_matches(&lower, "ipf.storeitem") || class_matches(&lower, "ipf.skypeteams")
            || class_matches(&lower, "ipf.files") || class_matches(&lower, "ipf.note.outlookhomepage") {
            FolderClass::Skipped
        } else {
            FolderClass::Mail
        }
    }

    /// Mail only because the class is unknown (not a note class).
    pub fn is_mail_fallback(class: &str) -> (r: bool)
        ensures
            r == (folder_class_of(class@) == FolderClass::Mail && !class_is(lower_seq(trimmed(class@)), "ipf.note"@)),
    {
        let lower = trim_lower(class);
        FolderClass::from_ipf(class) == FolderClass::Mail && !class_matches(&lower, "ipf.note")
    }
}

#[derive(Debug, Clone, Copy, PartialEq, Eq, Structural)]
pub enum CalendarItemType {
    Single,
    RecurringMaster,
    Occurrence,
    Exception,
}

/// The kind of calendar item that a `CalendarItemType` value names.
pub open spec fn item_type_of(value: Seq<char>) -> Option<CalendarItemType> {
    if value == "Single"@ {
        Some(CalendarItemType::Single)
    } else if value == "RecurringMaster"@ {
        Some(CalendarItemType::RecurringMaster)
    } else if value == "Occurrence"@ {
        Some(CalendarItemType::Occurrence)
    } else if value == "Exception"@ {
        Some(CalendarItemType::Exception)
    } else {
        None
    }
}

impl CalendarItemType {
    pub fn parse(value: &str) -> (r: Option<CalendarItemType>)
        ensures
            r == item_type_of(value@),
    {
        if str_eq(value, "Single") {
            Some(CalendarItemType::Single)
        } else if str_eq(value, "RecurringMaster") {
            Some(CalendarItemType::RecurringMaster)
        } else if str_eq(value, "Occurrence") {
            Some(CalendarItemType::Occurrence)
        } else if str_eq(value, "Exception") {
            Some(CalendarItemType::Exception)
        } else {
            None
        }
    }
}

#[derive(Debug, Clone)]
pub enum ResponseCode {
    NoError,
    ItemNotFound,
    AccessDenied,
    InvalidIdMalformed,
    ServerBusy { back_off_ms: Option<u64> },
    TimeoutExpired,
    InvalidSyncStateData,
    MimeContentConversionFailed,
    AttachmentNotFound,
    AuthenticationRequired,
    ImpersonationFailed,
    BatchProcessingStopped,
    InternalServerTransientError,
    MailboxStoreUnavailable,
    ConnectionFailed,
    AdUnavailable,
    InvalidServerVersion,
    IncorrectSchemaVersion,
    InvalidRequest,
    InvalidSchemaVersionForMailboxVersion,
    Other(String),
}

/// The wire spelling of a response code.
pub open spec fn wire_name(c: &ResponseCode) -> Seq<char> {
    match c {
        ResponseCode::NoError => "NoError"@,
        ResponseCode::ItemNotFound => "ErrorItemNotFound"@,
        ResponseCode::AccessDenied => "ErrorAccessDenied"@,
        ResponseCode::InvalidIdMalformed => "ErrorInvalidIdMalformed"@,
        ResponseCode::ServerBusy { .. } => "ErrorServerBusy"@,
        ResponseCode::TimeoutExpired => "ErrorTimeoutExpired"@,
        ResponseCode::InvalidSyncStateData => "ErrorInvalidSyncStateData"@,
        ResponseCode::MimeContentConversionFailed => "ErrorMimeContentConversionFailed"@,
        ResponseCode::AttachmentNotFound => "ErrorAttachmentNotFound"@,
        ResponseCode::AuthenticationRequired => "ErrorAuthenticationRequired"@,
        ResponseCode::ImpersonationFailed => "ErrorImpersonationFailed"@,
        ResponseCode::BatchProcessingStopped => "ErrorBatchProcessingStopped"@,
        ResponseCode::InternalServerTransientError => "ErrorInternalServerTransientError"@,
        ResponseCode::MailboxStoreUnavailable => "ErrorMailboxStoreUnavailable"@,
        ResponseCode::ConnectionFailed => "ErrorConnectionFailed"@,
        ResponseCode::AdUnavailable => "ErrorADUnavailable"@,
        ResponseCode::InvalidServerVersion => "ErrorInvalidServerVersion"@,
        ResponseCode::IncorrectSchemaVersion => "ErrorIncorrectSchemaVersion"@,
        ResponseCode::InvalidRequest => "ErrorInvalidRequest"@,
        ResponseCode::InvalidSchemaVersionForMailboxVersion => "ErrorInvalidSchemaVersionForMailboxVersion"@,
        ResponseCode::Other(s) => s@,
    }
}

/// The response codes that have a variant of their own.
pub open spec fn known_code(s: Seq<char>) -> bool {
    ||| s == "NoError"@
    ||| s == "ErrorItemNotFound"@
    ||| s == "ErrorAccessDenied"@
    ||| s == "ErrorInvalidIdMalformed"@
    ||| s == "ErrorServerBusy"@
    ||| s == "ErrorTimeoutExpired"@
    ||| s == "ErrorInvalidSyncStateData"@
    ||| s == "ErrorMimeContentConversionFailed"@
    ||| s == "ErrorAttachmentNotFound"@
    ||| s == "ErrorAuthenticationRequired"@
    ||| s == "ErrorImpersonationFailed"@
    ||| s == "ErrorBatchProcessingStopped"@
    ||| s == "ErrorInternalServerTransientError"@
    ||| s == "ErrorMailboxStoreUnavailable"@
    ||| s == "ErrorConnectionFailed"@
    ||| s == "ErrorADUnavailable"@
    ||| s == "ErrorInvalidServerVersion"@
    ||| s == "ErrorIncorrectSchemaVersion"@
    ||| s == "ErrorInvalidRequest"@
    ||| s == "ErrorInvalidSchemaVersionForMailboxVersion"@
}

/// The code that a known wire name names (meaningful where `known_code`).
pub open spec fn code_named(s: Seq<char>) -> ResponseCode {
    if s == "NoError"@ {
        ResponseCode::NoError
    } else if s == "ErrorItemNotFound"@ {
        ResponseCode::ItemNotFound
    } else if s == "ErrorAccessDenied"@ {
        ResponseCode::AccessDenied
    } else if s == "ErrorInvalidIdMalformed"@ {
        ResponseCode::InvalidIdMalformed
    } else if s == "ErrorServerBusy"@ {
        ResponseCode::ServerBusy { back_off_ms: None }
    } else if s == "ErrorTimeoutExpired"@ {
        ResponseCode::TimeoutExpired
    } else if s == "ErrorInvalidSyncStateData"@ {
        ResponseCode::InvalidSyncStateData
    } else if s == "ErrorMimeContentConversionFailed"@ {
        ResponseCode::MimeContentConversionFailed
    } else if s == "ErrorAttachmentNotFound"@ {
        ResponseCode::AttachmentNotFound
    } else if s == "ErrorAuthenticationRequired"@ {
        ResponseCode::AuthenticationRequired
    } else if s == "ErrorImpersonationFailed"@ {
        ResponseCode::ImpersonationFailed
    } else if s == "ErrorBatchProcessingStopped"@ {
        ResponseCode::BatchProcessingStopped
    } else if s == "ErrorInternalServerTransientError"@ {
        ResponseCode::InternalServerTransientError
    } else if s == "ErrorMailboxStoreUnavailable"@ {
        ResponseCode::MailboxStoreUnavailable
    } else if s == "ErrorConnectionFailed"@ {
        ResponseCode::ConnectionFailed
    } else if s == "ErrorADUnavailable"@ {
        ResponseCode::AdUnavailable
    } else if s == "ErrorInvalidServerVersion"@ {
        ResponseCode::InvalidServerVersion
    } else if s == "ErrorIncorrectSchemaVersion"@ {
        ResponseCode::IncorrectSchemaVersion
    } else if s == "ErrorInvalidRequest"@ {
        ResponseCode::InvalidRequest
    } else if s == "ErrorInvalidSchemaVersionForMailboxVersion"@ {
        ResponseCode::InvalidSchemaVersionForMailboxVersion
    } else {
        ResponseCode::NoError
    }
}

impl ResponseCode {
    /// Reads a response code. Reading back its wire name gives the text
    /// read, and the code is `Other` exactly when the text names no known code.
    pub fn parse(code: &str) -> (r: ResponseCode)
        ensures
            wire_name(&r) == code@,
            (r is Other) == !known_code(code@),
            r matches ResponseCode::ServerBusy { back_off_ms } ==> back_off_ms is None,
            known_code(code@) ==> r == code_named(code@),
    {
        if str_eq(code, "NoError") {
            ResponseCode::NoError
        } else if str_eq(code, "ErrorItemNotFound") {
            ResponseCode::ItemNotFound
        } else if str_eq(code, "ErrorAccessDenied") {
            ResponseCode::AccessDenied
        } else if str_eq(code, "ErrorInvalidIdMalformed") {
            ResponseCode::InvalidIdMalformed
        } else if str_eq(code, "ErrorServerBusy") {
            ResponseCode::ServerBusy { back_off_ms: None }
        } else if str_eq(code, "ErrorTimeoutExpired") {
            ResponseCode::TimeoutExpired
        } else if str_eq(code, "ErrorInvalidSyncStateData") {
            ResponseCode::InvalidSyncStateData
        } else if str_eq(code, "ErrorMimeContentConversionFailed") {
            ResponseCode::MimeContentConversionFailed
        } else if str_eq(code, "ErrorAttachmentNotFound") {
            ResponseCode::AttachmentNotFound
        } else if str_eq(code, "ErrorAuthenticationRequired") {
            ResponseCode::AuthenticationRequired
        } else if str_eq(code, "ErrorImpersonationFailed") {
            ResponseCode::ImpersonationFailed
        } else if str_eq(code, "ErrorBatchProcessingStopped") {
            ResponseCode::BatchProcessingStopped
        } else if str_eq(code, "ErrorInternalServerTransientError") {
            ResponseCode::InternalServerTransientError
        } else if str_eq(code, "ErrorMailboxStoreUnavailable") {
            ResponseCode::MailboxStoreUnavailable
        } else if str_eq(code, "ErrorConnectionFailed") {
            ResponseCode::ConnectionFailed
        } else if str_eq(code, "ErrorADUnavailable") {
            ResponseCode::AdUnavailable
        } else if str_eq(code, "ErrorInvalidServerVersion") {
            ResponseCode::InvalidServerVersion
        } else if str_eq(code, "ErrorIncorrectSchemaVersion") {
            ResponseCode::IncorrectSchemaVersion
        } else if str_eq(code, "ErrorInvalidRequest") {
            ResponseCode::InvalidRequest
        } else if str_eq(code, "ErrorInvalidSchemaVersionForMailboxVersion") {
            ResponseCode::InvalidSchemaVersionForMailboxVersion
        } else {
            ResponseCode::Other(code.to_owned())
        }
    }

    pub fn as_wire(&self) -> (r: &str)
        ensures
            r@ == wire_name(self),
    {
        match self {
            ResponseCode::NoError => "NoError",
            ResponseCode::ItemNotFound => "ErrorItemNotFound",
            ResponseCode::AccessDenied => "ErrorAccessDenied",
            ResponseCode::InvalidIdMalformed => "ErrorInvalidIdMalformed",
            ResponseCode::ServerBusy { .. } => "ErrorServerBusy",
            ResponseCode::TimeoutExpired => "ErrorTimeoutExpired",
            ResponseCode::InvalidSyncStateData => "ErrorInvalidSyncStateData",
            ResponseCode::MimeContentConversionFailed => "ErrorMimeContentConversionFailed",
            ResponseCode::AttachmentNotFound => "ErrorAttachmentNotFound",
            ResponseCode::AuthenticationRequired => "ErrorAuthenticationRequired",
            ResponseCode::ImpersonationFailed => "ErrorImpersonationFailed",
            ResponseCode::BatchProcessingStopped => "ErrorBatchProcessingStopped",
            ResponseCode::InternalServerTransientError => "ErrorInternalServerTransientError",
            ResponseCode::MailboxStoreUnavailable => "ErrorMailboxStoreUnavailable",
            ResponseCode::ConnectionFailed => "ErrorConnectionFailed",
            ResponseCode::AdUnavailable => "ErrorADUnavailable",
            ResponseCode::InvalidServerVersion => "ErrorInvalidServerVersion",
            ResponseCode::IncorrectSchemaVersion => "ErrorIncorrectSchemaVersion",
            ResponseCode::InvalidRequest => "ErrorInvalidRequest",
            ResponseCode::InvalidSchemaVersionForMailboxVersion => "ErrorInvalidSchemaVersionForMailboxVersion",
            ResponseCode::Other(s) => s.as_str(),
        }
    }
}


/// Reading a code's wire name gives the code back: every code but `Other`
/// (and a busy code that carries a back-off) has a known wire name, and that
/// name names it. (`parse` reads any other text as `Other` of that text.)
pub proof fn law_wire_name_reads_back(c: ResponseCode)
    requires
        !(c is Other),
        c matches ResponseCode::ServerBusy { back_off_ms } ==> back_off_ms is None,
    ensures
        known_code(wire_name(&c)),
        code_named(wire_name(&c)) == c,
{
    reveal_strlit("NoError");
    reveal_strlit("ErrorItemNotFound");
    reveal_strlit("ErrorAccessDenied");
    reveal_strlit("ErrorInvalidIdMalformed");
    reveal_strlit("ErrorServerBusy");
    reveal_strlit("ErrorTimeoutExpired");
    reveal_strlit("ErrorInvalidSyncStateData");
    reveal_strlit("ErrorMimeContentConversionFailed");
    reveal_strlit("ErrorAttachmentNotFound");
    reveal_strlit("ErrorAuthenticationRequired");
    reveal_strlit("ErrorImpersonationFailed");
    reveal_strlit("ErrorBatchProcessingStopped");
    reveal_strlit("ErrorInternalServerTransientError");
    reveal_strlit("ErrorMailboxStoreUnavailable");
    reveal_strlit("ErrorConnectionFailed");
    reveal_strlit("ErrorADUnavailable");
    reveal_strlit("ErrorInvalidServerVersion");
    reveal_strlit("ErrorIncorrectSchemaVersion");
    reveal_strlit("ErrorInvalidRequest");
    reveal_strlit("ErrorInvalidSchemaVersionForMailboxVersion");
    assert("NoError"@.len() == 7);
    assert("ErrorItemNotFound"@.len() == 17);
    assert("ErrorAccessDenied"@.len() == 17);
    assert("ErrorInvalidIdMalformed"@.len() == 23);
    assert("ErrorServerBusy"@.len() == 15);
    assert("ErrorTimeoutExpired"@.len() == 19);
    assert("ErrorInvalidSyncStateData"@.len() == 25);
    assert("ErrorMimeContentConversionFailed"@.len() == 32);
    assert("ErrorAttachmentNotFound"@.len() == 23);
    assert("ErrorAuthenticationRequired"@.len() == 27);
    assert("ErrorImpersonationFailed"@.len() == 24);
    assert("ErrorBatchProcessingStopped"@.len() == 27);
    assert("ErrorInternalServerTransientError"@.len() == 33);
    assert("ErrorMailboxStoreUnavailable"@.len() == 28);
    assert("ErrorConnectionFailed"@.len() == 21);
    assert("ErrorADUnavailable"@.len() == 18);
    assert("ErrorInvalidServerVersion"@.len() == 25);
    assert("ErrorIncorrectSchemaVersion"@.len() == 27);
    assert("ErrorInvalidRequest"@.len() == 19);
    assert("ErrorInvalidSchemaVersionForMailboxVersion"@.len() == 42);
    assert("ErrorItemNotFound"@[5] != "ErrorAccessDenied"@[5]);
    assert("ErrorInvalidIdMalformed"@[5] != "ErrorAttachmentNotFound"@[5]);
    assert("ErrorTimeoutExpired"@[5] != "ErrorInvalidRequest"@[5]);
    assert("ErrorInvalidSyncStateData"@[13] != "ErrorInvalidServerVersion"@[13]);
    assert("ErrorAuthenticationRequired"@[5] != "ErrorBatchProcessingStopped"@[5]);
    assert("ErrorAuthenticationRequired"@[5] != "ErrorIncorrectSchemaVersion"@[5]);
    assert("ErrorBatchProcessingStopped"@[5] != "ErrorIncorrectSchemaVersion"@[5]);
    match c {
        ResponseCode::NoError => { assert(code_named(wire_name(&c)) == c); }
        ResponseCode::ItemNotFound => {
            assert(code_named(wire_name(&c)) == c);
        }
        ResponseCode::AccessDenied => { assert(code_named(wire_name(&c)) == c); }
        ResponseCode::InvalidIdMalformed => { assert(code_named(wire_name(&c)) == c); }
        ResponseCode::ServerBusy { .. } => { assert(code_named(wire_name(&c)) == c); }
        ResponseCode::TimeoutExpired => { assert(code_named(wire_name(&c)) == c); }
        ResponseCode::InvalidSyncStateData => { assert(code_named(wire_name(&c)) == c); }
        ResponseCode::MimeContentConversionFailed => { assert(code_named(wire_name(&c)) == c); }
        ResponseCode::AttachmentNotFound => { assert(code_named(wire_name(&c)) == c); }
        ResponseCode::AuthenticationRequired => { assert(code_named(wire_name(&c)) == c); }
        ResponseCode::ImpersonationFailed => { assert(code_named(wire_name(&c)) == c); }
        ResponseCode::BatchProcessingStopped => { assert(code_named(wire_name(&c)) == c); }
        ResponseCode::InternalServerTransientError => { assert(code_named(wire_name(&c)) == c); }
        ResponseCode::MailboxStoreUnavailable => { assert(code_named(wire_name(&c)) == c); }
        ResponseCode::ConnectionFailed => { assert(code_named(wire_name(&c)) == c); }
        ResponseCode::AdUnavailable => { assert(code_named(wire_name(&c)) == c); }
        ResponseCode::InvalidServerVersion => { assert(code_named(wire_name(&c)) == c); }
        ResponseCode::IncorrectSchemaVersion => { assert(code_named(wire_name(&c)) == c); }
        ResponseCode::InvalidRequest => { assert(code_named(wire_name(&c)) == c); }
        ResponseCode::InvalidSchemaVersionForMailboxVersion => { assert(code_named(wire_name(&c)) == c); }
        ResponseCode::Other(_) => {},
    }
}


/// Each calendar item type name gives its own kind, and no other text gives
/// one.
pub proof fn law_item_type_names(value: Seq<char>)
    ensures
        value == "Single"@ <==> item_type_of(value) == Some(CalendarItemType::Single),
        value == "RecurringMaster"@ <==> item_type_of(value) == Some(CalendarItemType::RecurringMaster),
        value == "Occurrence"@ <==> item_type_of(value) == Some(CalendarItemType::Occurrence),
        value == "Exception"@ <==> item_type_of(value) == Some(CalendarItemType::Exception),
{
    reveal_strlit("Single");
    reveal_strlit("RecurringMaster");
    reveal_strlit("Occurrence");
    reveal_strlit("Exception");
    assert("Single"@.len() == 6);
    assert("RecurringMaster"@.len() == 15);
    assert("Occurrence"@.len() == 10);
    assert("Exception"@.len() == 9);
}

/// Build 8 announces Exchange 2007 and any major release above 15 announces
/// Exchange 2019; within the 14 and 15 release lines a later minor build
/// never announces an earlier version.
pub proof fn law_builds_announce_versions_in_order(major: u32, minor: u32, later_minor: u32)
    requires
        minor <= later_minor,
    ensures
        major == 8 ==> version_of_build(major, minor) == ServerVersion::Exchange2007,
        major > 15 ==> version_of_build(major, minor) == ServerVersion::Exchange2019,
        (major == 14 || major == 15) ==> version_rank(version_of_build(major, minor)) <= version_rank(
            version_of_build(major, later_minor),
        ),
{
}
} // verus!
