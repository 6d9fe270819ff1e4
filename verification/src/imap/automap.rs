//! Mapping IMAP folders to JMAP mailbox roles.

use vstd::prelude::*;
use vstd::utf8::{encode_utf8, is_char_boundary};
use crate::text::{chars_of, eq_ignore_case, lower_seq, str_eq, str_eq_ignore_case, to_lower};

verus! {

/// The role that a lowered SPECIAL-USE attribute names.
pub open spec fn special_use_role(l: Seq<char>) -> Option<Seq<char>> {
    if l == "\\all"@ {
        Some("all"@)
    } else if l == "\\archive"@ {
        Some("archive"@)
    } else if l == "\\drafts"@ {
        Some("drafts"@)
    } else if l == "\\flagged"@ {
        Some("flagged"@)
    } else if l == "\\important"@ {
        Some("important"@)
    } else if l == "\\junk"@ {
        Some("junk"@)
    } else if l == "\\sent"@ {
        Some("sent"@)
    } else if l == "\\trash"@ {
        Some("trash"@)
    } else {
        None
    }
}

/// The role of the first of the first `n` attributes that names one.
pub open spec fn special_use_of(attrs: Seq<Seq<char>>, n: int) -> Option<Seq<char>>
    decreases n,
{
    if n <= 0 {
        None
    } else {
        match special_use_of(attrs, n - 1) {
            Some(r) => Some(r),
            None => special_use_role(lower_seq(attrs[n - 1])),
        }
    }
}

pub open spec fn str_opt(r: Option<&'static str>) -> Option<Seq<char>> {
    match r {
        Some(s) => Some(s@),
        None => None,
    }
}

pub open spec fn strings_of(v: Seq<String>) -> Seq<Seq<char>> {
    v.map_values(|s: String| s@)
}

fn special_use_role_of(attr: &String) -> (r: Option<&'static str>)
    ensures
        str_opt(r) == special_use_role(lower_seq(attr@)),
{
    let lower = to_lower(attr.as_str());
    let l = lower.as_str();
    if str_eq(l, "\\all") {
        Some("all")
    } else if str_eq(l, "\\archive") {
        Some("archive")
    } else if str_eq(l, "\\drafts") {
        Some("drafts")
    } else if str_eq(l, "\\flagged") {
        Some("flagged")
    } else if str_eq(l, "\\important") {
        Some("important")
    } else if str_eq(l, "\\junk") {
        Some("junk")
    } else if str_eq(l, "\\sent") {
        Some("sent")
    } else if str_eq(l, "\\trash") {
        Some("trash")
    } else {
        None
    }
}

/// The role named by the first SPECIAL-USE attribute that names one.
pub fn role_from_special_use(attributes: &[String]) -> (r: Option<&'static str>)
    ensures
        str_opt(r) == special_use_of(strings_of(attributes@), attributes@.len() as int),
{
    let ghost av = strings_of(attributes@);
    let mut i: usize = 0;
    while i < attributes.len()
        invariant
            av == strings_of(attributes@),
            i <= attributes@.len(),
            special_use_of(av, i as int) is None,
        decreases attributes.len() - i,
    {
        let r = special_use_role_of(&attributes[i]);
        if r.is_some() {
            proof {
                lemma_special_use_found(av, i as int + 1, attributes@.len() as int);
            }
            return r;
        }
        i += 1;
    }
    None
}

proof fn lemma_special_use_found(attrs: Seq<Seq<char>>, k: int, n: int)
    requires
        0 <= k <= n,
    ensures
        special_use_of(attrs, k) is Some ==> special_use_of(attrs, n) == special_use_of(attrs, k),
    decreases n - k,
{
    if k < n {
        lemma_special_use_found(attrs, k, n - 1);
    }
}

/// The folder name patterns of each role, in the order they are tried.
pub open spec fn sent_names() -> Seq<Seq<char>> {
    seq!["Sent"@, "Sent Mail"@, "Sent Items"@, "Sent Messages"@, "Sent-Mail"@, "[Gmail]/Sent Mail"@, "[Gmail]/Sent"@]
}

pub open spec fn drafts_names() -> Seq<Seq<char>> {
    seq!["Drafts"@, "Draft"@, "Brouillons"@, "[Gmail]/Drafts"@]
}

pub open spec fn trash_names() -> Seq<Seq<char>> {
    seq!["Trash"@, "Deleted"@, "Deleted Items"@, "Deleted Messages"@, "[Gmail]/Trash"@, "[Gmail]/Bin"@]
}

pub open spec fn junk_names() -> Seq<Seq<char>> {
    seq!["Junk"@, "Spam"@, "Junk E-mail"@, "Junk Email"@, "[Gmail]/Spam"@]
}

pub open spec fn all_names() -> Seq<Seq<char>> {
    seq!["[Gmail]/All Mail"@]
}

pub open spec fn archive_names() -> Seq<Seq<char>> {
    seq!["Archive"@, "Archives"@]
}

/// The leaf or the full name equals one of the patterns, ignoring case.
pub open spec fn matches_any(full: Seq<char>, leaf: Seq<char>, pats: Seq<Seq<char>>) -> bool {
    exists|i: int| 0 <= i < pats.len() && (eq_ignore_case(leaf, #[trigger] pats[i]) || eq_ignore_case(full, pats[i]))
}

/// The role that a folder's name suggests, roles tried in a fixed order.
pub open spec fn role_by_name(full: Seq<char>, leaf: Seq<char>) -> Option<Seq<char>> {
    if matches_any(full, leaf, sent_names()) {
        Some("sent"@)
    } else if matches_any(full, leaf, drafts_names()) {
        Some("drafts"@)
    } else if matches_any(full, leaf, trash_names()) {
        Some("trash"@)
    } else if matches_any(full, leaf, junk_names()) {
        Some("junk"@)
    } else if matches_any(full, leaf, all_names()) {
        Some("all"@)
    } else if matches_any(full, leaf, archive_names()) {
        Some("archive"@)
    } else {
        None
    }
}

fn matches_list(full: &str, leaf: &str, pats: &[&str]) -> (r: bool)
    ensures
        r == matches_any(full@, leaf@, pats@.map_values(|p: &str| p@)),
{
    let ghost pv = pats@.map_values(|p: &str| p@);
    let mut i: usize = 0;
    while i < pats.len()
        invariant
            pv == pats@.map_values(|p: &str| p@),
            i <= pats@.len(),
            forall|j: int| 0 <= j < i ==> !(eq_ignore_case(leaf@, #[trigger] pv[j]) || eq_ignore_case(full@, pv[j])),
        decreases pats.len() - i,
    {
        if str_eq_ignore_case(leaf, pats[i]) || str_eq_ignore_case(full, pats[i]) {
            assert(eq_ignore_case(leaf@, pv[i as int]) || eq_ignore_case(full@, pv[i as int]));
            return true;
        }
        i += 1;
    }
    false
}

fn role_from_name(full: &str, leaf: &str) -> (r: Option<&'static str>)
    ensures
        str_opt(r) == role_by_name(full@, leaf@),
{
    let sent: [&str; 7] = ["Sent", "Sent Mail", "Sent Items", "Sent Messages", "Sent-Mail", "[Gmail]/Sent Mail", "[Gmail]/Sent"];
    assert(sent@.map_values(|p: &str| p@) =~= sent_names());
    if matches_list(full, leaf, &sent) {
        return Some("sent");
    }
    let drafts: [&str; 4] = ["Drafts", "Draft", "Brouillons", "[Gmail]/Drafts"];
    assert(drafts@.map_values(|p: &str| p@) =~= drafts_names());
    if matches_list(full, leaf, &drafts) {
        return Some("drafts");
    }
    let trash: [&str; 6] = ["Trash", "Deleted", "Deleted Items", "Deleted Messages", "[Gmail]/Trash", "[Gmail]/Bin"];
    assert(trash@.map_values(|p: &str| p@) =~= trash_names());
    if matches_list(full, leaf, &trash) {
        return Some("trash");
    }
    let junk: [&str; 5] = ["Junk", "Spam", "Junk E-mail", "Junk Email", "[Gmail]/Spam"];
    assert(junk@.map_values(|p: &str| p@) =~= junk_names());
    if matches_list(full, leaf, &junk) {
        return Some("junk");
    }
    let all: [&str; 1] = ["[Gmail]/All Mail"];
    assert(all@.map_values(|p: &str| p@) =~= all_names());
    if matches_list(full, leaf, &all) {
        return Some("all");
    }
    let archive: [&str; 2] = ["Archive", "Archives"];
    assert(archive@.map_values(|p: &str| p@) =~= archive_names());
    if matches_list(full, leaf, &archive) {
        return Some("archive");
    }
    None
}

/// The name with a case-insensitive namespace prefix removed.
pub open spec fn strip_prefix_ci(name: Seq<char>, prefix: Seq<char>) -> Seq<char> {
    if prefix.len() > 0 && prefix.len() <= name.len() && eq_ignore_case(name.take(prefix.len() as int), prefix) {
        name.skip(prefix.len() as int)
    } else {
        name
    }
}

/// Cutting the name at the prefix's UTF-8 byte length lands on a character
/// boundary (or the prefix does not apply).
pub open spec fn prefix_cut_ok(name: Seq<char>, prefix: Seq<char>) -> bool {
    prefix.len() == 0 || encode_utf8(name).len() < encode_utf8(prefix).len()
        || is_char_boundary(encode_utf8(name), encode_utf8(prefix).len() as int)
}

/// The part of a name after its last `/` or `.`.
pub open spec fn leaf_of(name: Seq<char>) -> Seq<char>
    decreases name.len(),
{
    if name.len() == 0 {
        name
    } else if name.last() == '/' || name.last() == '.' {
        Seq::empty()
    } else {
        leaf_of(name.drop_last()).push(name.last())
    }
}

fn strip_prefix_case_insensitive(name: &str, prefix: &str) -> (r: String)
    ensures
        r@ == strip_prefix_ci(name@, prefix@),
{
    let n = chars_of(name);
    let p = chars_of(prefix);
    if p.len() == 0 || p.len() > n.len() {
        return name.to_owned();
    }
    let mut i: usize = 0;
    while i < p.len()
        invariant
            n@ == name@,
            p@ == prefix@,
            p@.len() <= n@.len(),
            i <= p@.len(),
            forall|j: int| 0 <= j < i ==> crate::text::lower_char(#[trigger] n@[j]) == crate::text::lower_char(p@[j]),
        decreases p.len() - i,
    {
        if crate::text::lower(n[i]) != crate::text::lower(p[i]) {
            assert(lower_seq(name@.take(prefix@.len() as int))[i as int] != lower_seq(prefix@)[i as int]);
            return name.to_owned();
        }
        i += 1;
    }
    assert(lower_seq(name@.take(prefix@.len() as int)) =~= lower_seq(prefix@));
    let mut out = String::new();
    let mut k: usize = p.len();
    while k < n.len()
        invariant
            n@ == name@,
            p@ == prefix@,
            p@.len() <= k <= n@.len(),
            out@ == name@.subrange(p@.len() as int, k as int),
        decreases n.len() - k,
    {
        crate::text::push_char(&mut out, n[k]);
        k += 1;
        assert(name@.subrange(p@.len() as int, k as int) =~= name@.subrange(p@.len() as int, k - 1).push(n@[k - 1]));
    }
    out
}

fn leaf_component(name: &str) -> (r: String)
    ensures
        r@ == leaf_of(name@),
{
    let n = chars_of(name);
    let mut out = String::new();
    let mut i: usize = 0;
    assert(name@.take(0) =~= Seq::<char>::empty());
    while i < n.len()
        invariant
            n@ == name@,
            i <= n@.len(),
            out@ == leaf_of(name@.take(i as int)),
        decreases n.len() - i,
    {
        assert(name@.take(i + 1).drop_last() =~= name@.take(i as int));
        if n[i] == '/' || n[i] == '.' {
            out = String::new();
        } else {
            crate::text::push_char(&mut out, n[i]);
        }
        i += 1;
    }
    assert(name@.take(i as int) =~= name@);
    out
}

/// The role of a folder: INBOX by name, else its SPECIAL-USE attribute, else
/// (when enabled) the conventional names of its leaf or full path.
pub open spec fn spec_role_for_folder(name: Seq<char>, attrs: Seq<Seq<char>>, prefix: Seq<char>, automap: bool) -> Option<Seq<char>> {
    if eq_ignore_case(name, "INBOX"@) {
        Some("inbox"@)
    } else if special_use_of(attrs, attrs.len() as int) is Some {
        special_use_of(attrs, attrs.len() as int)
    } else if !automap {
        None
    } else {
        let stripped = strip_prefix_ci(name, prefix);
        role_by_name(stripped, leaf_of(stripped))
    }
}

pub fn role_for_folder(
    folder_name: &str,
    attributes: &[String],
    namespace_prefix: &str,
    automap_enabled: bool,
) -> (r: Option<&'static str>)
    requires
        !eq_ignore_case(folder_name@, "INBOX"@)
            && special_use_of(strings_of(attributes@), attributes@.len() as int) is None
            && automap_enabled
            ==> prefix_cut_ok(folder_name@, namespace_prefix@),
    ensures
        str_opt(r) == spec_role_for_folder(folder_name@, strings_of(attributes@), namespace_prefix@, automap_enabled),
{
    if str_eq_ignore_case(folder_name, "INBOX") {
        return Some("inbox");
    }
    let su = role_from_special_use(attributes);
    if su.is_some() {
        return su;
    }
    if !automap_enabled {
        return None;
    }
    let stripped = strip_prefix_case_insensitive(folder_name, namespace_prefix);
    let leaf = leaf_component(stripped.as_str());
    role_from_name(stripped.as_str(), leaf.as_str())
}


/// INBOX (in any case) is always the inbox, whatever its attributes, prefix
/// or the automap setting.
pub proof fn law_inbox_is_always_inbox(name: Seq<char>, attrs: Seq<Seq<char>>, prefix: Seq<char>, automap: bool)
    requires
        eq_ignore_case(name, "INBOX"@),
    ensures
        spec_role_for_folder(name, attrs, prefix, automap) == Some("inbox"@),
{
}

/// Each SPECIAL-USE attribute, lowered, names its own role (`\All` all,
/// `\Archive` archive, `\Drafts` drafts, `\Flagged` flagged, `\Important`
/// important, `\Junk` junk, `\Sent` sent, `\Trash` trash), and no other
/// text names one.
pub proof fn law_special_use_names_its_role(l: Seq<char>)
    ensures
        l == "\\all"@ <==> special_use_role(l) == Some("all"@),
        l == "\\archive"@ <==> special_use_role(l) == Some("archive"@),
        l == "\\drafts"@ <==> special_use_role(l) == Some("drafts"@),
        l == "\\flagged"@ <==> special_use_role(l) == Some("flagged"@),
        l == "\\important"@ <==> special_use_role(l) == Some("important"@),
        l == "\\junk"@ <==> special_use_role(l) == Some("junk"@),
        l == "\\sent"@ <==> special_use_role(l) == Some("sent"@),
        l == "\\trash"@ <==> special_use_role(l) == Some("trash"@),
{
    reveal_strlit("\\all");
    reveal_strlit("\\archive");
    reveal_strlit("\\drafts");
    reveal_strlit("\\flagged");
    reveal_strlit("\\important");
    reveal_strlit("\\junk");
    reveal_strlit("\\sent");
    reveal_strlit("\\trash");
    reveal_strlit("all");
    reveal_strlit("archive");
    reveal_strlit("drafts");
    reveal_strlit("flagged");
    reveal_strlit("important");
    reveal_strlit("junk");
    reveal_strlit("sent");
    reveal_strlit("trash");
    assert("all"@.len() == 3);
    assert("archive"@.len() == 7 && "archive"@[0] == 'a');
    assert("drafts"@.len() == 6);
    assert("flagged"@.len() == 7 && "flagged"@[0] == 'f');
    assert("important"@.len() == 9);
    assert("junk"@.len() == 4 && "junk"@[0] == 'j');
    assert("sent"@.len() == 4 && "sent"@[0] == 's');
    assert("trash"@.len() == 5);
    assert("\\all"@.len() == 4 && "\\all"@[1] == 'a');
    assert("\\archive"@.len() == 8 && "\\archive"@[1] == 'a');
    assert("\\drafts"@.len() == 7 && "\\drafts"@[1] == 'd');
    assert("\\flagged"@.len() == 8 && "\\flagged"@[1] == 'f');
    assert("\\important"@.len() == 10);
    assert("\\junk"@.len() == 5 && "\\junk"@[1] == 'j');
    assert("\\sent"@.len() == 5 && "\\sent"@[1] == 's');
    assert("\\trash"@.len() == 6);
}

/// Outside INBOX, the first attribute that names a role decides the folder's
/// role, whatever its name, prefix or the automap setting.
pub proof fn law_special_use_decides(name: Seq<char>, attrs: Seq<Seq<char>>, prefix: Seq<char>, automap: bool, k: int)
    requires
        !eq_ignore_case(name, "INBOX"@),
        0 <= k < attrs.len(),
        special_use_role(lower_seq(attrs[k])) is Some,
        forall|j: int| 0 <= j < k ==> special_use_role(lower_seq(#[trigger] attrs[j])) is None,
    ensures
        spec_role_for_folder(name, attrs, prefix, automap) == special_use_role(lower_seq(attrs[k])),
{
    lemma_first_special_use(attrs, k, attrs.len() as int);
}

proof fn lemma_first_special_use(attrs: Seq<Seq<char>>, k: int, n: int)
    requires
        0 <= k < n <= attrs.len(),
        special_use_role(lower_seq(attrs[k])) is Some,
        forall|j: int| 0 <= j < k ==> special_use_role(lower_seq(#[trigger] attrs[j])) is None,
    ensures
        special_use_of(attrs, n) == special_use_role(lower_seq(attrs[k])),
    decreases n,
{
    if n > k + 1 {
        lemma_first_special_use(attrs, k, n - 1);
    } else {
        lemma_none_before(attrs, k);
    }
}

proof fn lemma_none_before(attrs: Seq<Seq<char>>, n: int)
    requires
        0 <= n <= attrs.len(),
        forall|j: int| 0 <= j < n ==> special_use_role(lower_seq(#[trigger] attrs[j])) is None,
    ensures
        special_use_of(attrs, n) is None,
    decreases n,
{
    if n > 0 {
        lemma_none_before(attrs, n - 1);
    }
}
} // verus!
