//! JMAP session discovery: the limits a server advertises and the well-known
//! location of its session resource.

use vstd::prelude::*;
use crate::json::{entries_view, JsonV, JsonValue};
use crate::text::{chars_of, push_char, str_eq};

verus! {

/// The `urn:ietf:params:jmap:core` limits of a session.
#[derive(Debug, Clone, Copy)]
pub struct Limits {
    pub max_objects_in_get: u64,
    pub max_objects_in_set: u64,
    pub max_calls_in_request: u64,
    pub max_concurrent_requests: u64,
    pub max_concurrent_upload: u64,
    pub max_size_request: u64,
    pub max_size_upload: u64,
}

/// The text without its trailing `/` characters.
pub open spec fn trim_trailing_slashes(s: Seq<char>) -> Seq<char>
    decreases s.len(),
{
    if s.len() > 0 && s.last() == '/' {
        trim_trailing_slashes(s.drop_last())
    } else {
        s
    }
}

/// The well-known session location under a base URL.
pub open spec fn well_known_of(base: Seq<char>) -> Seq<char> {
    trim_trailing_slashes(base) + "/.well-known/jmap"@
}

proof fn lemma_trim_trailing_prefix(s: Seq<char>, k: int)
    requires
        0 <= k <= s.len(),
        forall|j: int| k <= j < s.len() ==> s[j] == '/',
        k == 0 || s[k - 1] != '/',
    ensures
        trim_trailing_slashes(s) == s.take(k),
    decreases s.len(),
{
    if s.len() > k {
        assert(s.drop_last() =~= s.take(s.len() - 1));
        lemma_trim_trailing_prefix(s.drop_last(), k);
        assert(s.drop_last().take(k) =~= s.take(k));
    } else {
        assert(s.take(k) =~= s);
    }
}

/// `base` with trailing slashes removed, followed by `/.well-known/jmap`.
pub fn well_known_url(base: &str) -> (r: String)
    ensures
        r@ == well_known_of(base@),
{
    let chars = chars_of(base);
    let mut k: usize = chars.len();
    while k > 0 && chars[k - 1] == '/'
        invariant
            chars@ == base@,
            k <= chars@.len(),
            forall|j: int| k <= j < chars@.len() ==> chars@[j] == '/',
        decreases k,
    {
        k = k - 1;
    }
    proof {
        lemma_trim_trailing_prefix(base@, k as int);
    }
    let mut out = String::new();
    let mut i: usize = 0;
    while i < k
        invariant
            chars@ == base@,
            k <= chars@.len(),
            i <= k,
            out@ == base@.take(i as int),
        decreases k - i,
    {
        push_char(&mut out, chars[i]);
        proof {
            assert(base@.take(i + 1) =~= base@.take(i as int).push(base@[i as int]));
        }
        i = i + 1;
    }
    let ghost head = out@;
    out.append("/.well-known/jmap");
    proof {
        assert(out@ =~= head + "/.well-known/jmap"@);
    }
    out
}


proof fn lemma_trim_push_slash(s: Seq<char>)
    ensures
        trim_trailing_slashes(s.push('/')) == trim_trailing_slashes(s),
{
    assert(s.push('/').drop_last() =~= s);
}

/// Trailing slashes on the base make no difference to the well-known
/// location, which always ends in `/.well-known/jmap`.
pub proof fn law_well_known_ignores_trailing_slash(base: Seq<char>)
    ensures
        well_known_of(base.push('/')) == well_known_of(base),
        well_known_of(base).len() >= "/.well-known/jmap"@.len(),
        well_known_of(base).skip(well_known_of(base).len() - "/.well-known/jmap"@.len()) == "/.well-known/jmap"@,
{
    lemma_trim_push_slash(base);
    let t = trim_trailing_slashes(base);
    assert((t + "/.well-known/jmap"@).skip(t.len() as int) =~= "/.well-known/jmap"@);
}

// ---------------------------------------------------------------------------
// The session resource

/// An account of a session: its name and the capabilities it offers.
#[derive(Debug)]
pub struct Account {
    pub name: String,
    pub account_capabilities: Vec<(String, JsonValue)>,
}

/// A JMAP session resource: its endpoints, the server's capabilities and the
/// accounts, each keyed by its id.
#[derive(Debug)]
pub struct Session {
    pub api_url: String,
    pub upload_url: String,
    pub download_url: String,
    pub capabilities: Vec<(String, JsonValue)>,
    pub accounts: Vec<(String, Account)>,
}

pub struct AccountV {
    pub name: Seq<char>,
    pub capabilities: Seq<(Seq<char>, JsonV)>,
}

pub struct SessionV {
    pub api_url: Seq<char>,
    pub upload_url: Seq<char>,
    pub download_url: Seq<char>,
    pub capabilities: Seq<(Seq<char>, JsonV)>,
    pub accounts: Seq<(Seq<char>, AccountV)>,
}

impl View for Account {
    type V = AccountV;

    open spec fn view(&self) -> AccountV {
        AccountV { name: self.name@, capabilities: entries_view(self.account_capabilities@) }
    }
}

pub open spec fn accounts_view(v: Seq<(String, Account)>) -> Seq<(Seq<char>, AccountV)> {
    v.map_values(|p: (String, Account)| (p.0@, p.1@))
}

impl View for Session {
    type V = SessionV;

    open spec fn view(&self) -> SessionV {
        SessionV {
            api_url: self.api_url@,
            upload_url: self.upload_url@,
            download_url: self.download_url@,
            capabilities: entries_view(self.capabilities@),
            accounts: accounts_view(self.accounts@),
        }
    }
}

/// The index of the first account with id `id`, from index `i` on.
pub open spec fn account_index(a: Seq<(Seq<char>, AccountV)>, id: Seq<char>, i: int) -> Option<int>
    decreases a.len() - i,
{
    if i < 0 || i >= a.len() {
        None
    } else if a[i].0 == id {
        Some(i)
    } else {
        account_index(a, id, i + 1)
    }
}

/// The account with id `id`.
pub open spec fn account_of(s: SessionV, id: Seq<char>) -> Option<AccountV> {
    match account_index(s.accounts, id, 0) {
        Some(i) => Some(s.accounts[i].1),
        None => None,
    }
}

/// Whether a capability list names `urn`.
pub open spec fn has_capability(caps: Seq<(Seq<char>, JsonV)>, urn: Seq<char>) -> bool {
    exists|k: int| 0 <= k < caps.len() && (#[trigger] caps[k]).0 == urn
}

/// Whether the account with id `id` offers capability `urn`.
pub open spec fn supports_of(s: SessionV, id: Seq<char>, urn: Seq<char>) -> bool {
    match account_of(s, id) {
        Some(a) => has_capability(a.capabilities, urn),
        None => false,
    }
}

/// A byte that a path segment carries as it is: a letter, a digit, `-`,
/// `_`, `.` or `~`.
pub open spec fn unreserved(b: u8) -> bool {
    (0x30 <= b <= 0x39) || (0x41 <= b <= 0x5a) || (0x61 <= b <= 0x7a) || b == 0x2d || b == 0x5f || b == 0x2e || b == 0x7e
}

/// An upper-case hexadecimal digit.
pub open spec fn hex_digit(n: u8) -> char {
    if n < 10 { (48 + n) as char } else { (55 + n) as char }
}

/// The bytes of a path segment, each reserved one as `%XY`.
pub open spec fn encoded_bytes(b: Seq<u8>) -> Seq<char>
    decreases b.len(),
{
    if b.len() == 0 {
        Seq::empty()
    } else {
        let c = b.last();
        encoded_bytes(b.drop_last()) + if unreserved(c) {
            seq![c as char]
        } else {
            seq!['%', hex_digit(c / 16), hex_digit(c % 16)]
        }
    }
}

/// A text as a URL path segment, percent-encoding its UTF-8 bytes.
pub open spec fn encoded_segment(s: Seq<char>) -> Seq<char> {
    encoded_bytes(vstd::utf8::encode_utf8(s))
}

fn hex(n: u8) -> (r: char)
    requires
        n < 16,
    ensures
        r == hex_digit(n),
{
    if n < 10 { (48 + n) as char } else { (55 + n) as char }
}

/// A text as a URL path segment: letters, digits and `-_.~` as they are,
/// every other UTF-8 byte as `%XY`.
pub fn encode_segment(input: &str) -> (r: String)
    ensures
        r@ == encoded_segment(input@),
{
    let bytes = input.as_bytes();
    let ghost b = bytes@;
    let mut out = String::new();
    let mut i: usize = 0;
    assert(b.take(0) =~= Seq::<u8>::empty());
    while i < bytes.len()
        invariant
            b == bytes@,
            b == vstd::utf8::encode_utf8(input@),
            i <= b.len(),
            out@ == encoded_bytes(b.take(i as int)),
        decreases bytes.len() - i,
    {
        let c = bytes[i];
        assert(b.take(i + 1).drop_last() =~= b.take(i as int));
        assert(b.take(i + 1).last() == c);
        let ghost before = out@;
        if (0x30 <= c && c <= 0x39) || (0x41 <= c && c <= 0x5a) || (0x61 <= c && c <= 0x7a) || c == 0x2d || c == 0x5f
            || c == 0x2e || c == 0x7e {
            push_char(&mut out, c as char);
        } else {
            push_char(&mut out, '%');
            push_char(&mut out, hex(c / 16));
            push_char(&mut out, hex(c % 16));
        }
        assert(out@ =~= encoded_bytes(b.take(i + 1)));
        i += 1;
    }
    assert(b.take(i as int) =~= b);
    out
}

/// `s` with every occurrence of `pat` (taken left to right, without
/// overlaps) replaced by `rep`.
pub open spec fn replaced(s: Seq<char>, pat: Seq<char>, rep: Seq<char>) -> Seq<char>
    decreases s.len(),
{
    if s.len() == 0 || pat.len() == 0 {
        s
    } else if pat.len() <= s.len() && s.take(pat.len() as int) == pat {
        rep + replaced(s.skip(pat.len() as int), pat, rep)
    } else {
        seq![s[0]] + replaced(s.skip(1), pat, rep)
    }
}

fn matches_at(s: &Vec<char>, i: usize, pat: &Vec<char>) -> (r: bool)
    requires
        i <= s@.len(),
    ensures
        r == (pat@.len() <= s@.len() - i && s@.skip(i as int).take(pat@.len() as int) == pat@),
{
    if pat.len() > s.len() - i {
        return false;
    }
    let n = s.len();
    let mut k: usize = 0;
    while k < pat.len()
        invariant
            n == s@.len(),
            i + pat@.len() <= s@.len(),
            k <= pat@.len(),
            forall|j: int| 0 <= j < k ==> s@[i + j] == pat@[j],
        decreases pat.len() - k,
    {
        if s[i + k] != pat[k] {
            assert(s@.skip(i as int).take(pat@.len() as int)[k as int] != pat@[k as int]);
            return false;
        }
        k += 1;
    }
    assert(s@.skip(i as int).take(pat@.len() as int) =~= pat@);
    true
}

/// `str::replace` for a pattern that is not empty.
pub fn replace_all(s: &str, pat: &str, rep: &str) -> (r: String)
    requires
        pat@.len() > 0,
    ensures
        r@ == replaced(s@, pat@, rep@),
{
    let v = chars_of(s);
    let p = chars_of(pat);
    let mut out = String::new();
    let mut i: usize = 0;
    assert(v@.skip(0) =~= v@);
    while i < v.len()
        invariant
            v@ == s@,
            p@ == pat@,
            p@.len() > 0,
            i <= v@.len(),
            out@ + replaced(v@.skip(i as int), p@, rep@) == replaced(s@, pat@, rep@),
        decreases v.len() - i,
    {
        let ghost rest = v@.skip(i as int);
        if matches_at(&v, i, &p) {
            assert(rest.skip(p@.len() as int) =~= v@.skip(i + p@.len()));
            let ghost before = out@;
            out.append(rep);
            assert(out@ + replaced(v@.skip(i + p@.len()), p@, rep@) =~= before + replaced(rest, p@, rep@));
            i = i + p.len();
        } else {
            assert(rest.skip(1) =~= v@.skip(i + 1));
            assert(rest[0] == v@[i as int]);
            let ghost before = out@;
            push_char(&mut out, v[i]);
            assert(out@ + replaced(v@.skip(i + 1), p@, rep@) =~= before + replaced(rest, p@, rep@));
            i = i + 1;
        }
    }
    assert(v@.skip(i as int) =~= Seq::<char>::empty());
    assert(out@ + Seq::<char>::empty() =~= out@);
    out
}

impl Session {
    /// The account with id `account_id`.
    pub fn account(&self, account_id: &str) -> (r: Option<&Account>)
        ensures
            match account_of(self@, account_id@) {
                Some(a) => r matches Some(x) && x@ == a,
                None => r is None,
            },
    {
        let ghost a = accounts_view(self.accounts@);
        let mut i: usize = 0;
        while i < self.accounts.len()
            invariant
                a == accounts_view(self.accounts@),
                a.len() == self.accounts@.len(),
                i <= self.accounts@.len(),
                account_index(a, account_id@, 0) == account_index(a, account_id@, i as int),
            decreases self.accounts.len() - i,
        {
            assert(a[i as int] == (self.accounts@[i as int].0@, self.accounts@[i as int].1@));
            if str_eq(self.accounts[i].0.as_str(), account_id) {
                return Some(&self.accounts[i].1);
            }
            i += 1;
        }
        None
    }

    /// Whether account `account_id` offers the capability `capability_urn`;
    /// false for an unknown account.
    pub fn supports(&self, account_id: &str, capability_urn: &str) -> (r: bool)
        ensures
            r == supports_of(self@, account_id@, capability_urn@),
    {
        match self.account(account_id) {
            Some(acct) => {
                let caps = &acct.account_capabilities;
                proof { crate::json::lemma_entries_len(caps@); }
                let mut i: usize = 0;
                while i < caps.len()
                    invariant
                        i <= caps@.len(),
                        entries_view(caps@) == acct@.capabilities,
                        account_of(self@, account_id@) == Some(acct@),
                        entries_view(caps@).len() == caps@.len(),
                        forall|j: int| 0 <= j < caps@.len() ==> #[trigger] entries_view(caps@)[j] == (caps@[j].0@, crate::json::json_view(caps@[j].1)),
                        forall|j: int| 0 <= j < i ==> entries_view(caps@)[j].0 != capability_urn@,
                    decreases caps.len() - i,
                {
                    assert(entries_view(caps@)[i as int].0 == caps@[i as int].0@);
                    if str_eq(caps[i].0.as_str(), capability_urn) {
                        assert(acct@.capabilities[i as int].0 == capability_urn@);
                        assert(has_capability(acct@.capabilities, capability_urn@));
                        return true;
                    }
                    i += 1;
                }
                false
            },
            None => false,
        }
    }

    /// The upload URL for an account: the template's `{accountId}` filled
    /// with the encoded id.
    pub fn upload_url_for(&self, account_id: &str) -> (r: String)
        ensures
            r@ == replaced(self@.upload_url, "{accountId}"@, encoded_segment(account_id@)),
    {
        proof { reveal_strlit("{accountId}"); }
        let id = encode_segment(account_id);
        replace_all(self.upload_url.as_str(), "{accountId}", id.as_str())
    }

    /// The download URL of a blob: the template's `{accountId}`, `{blobId}`,
    /// `{type}` and `{name}` filled, in that order, with the encoded values.
    pub fn download_url_for(&self, account_id: &str, blob_id: &str, type_hint: &str, name: &str) -> (r: String)
        ensures
            r@ == replaced(
                replaced(
                    replaced(
                        replaced(self@.download_url, "{accountId}"@, encoded_segment(account_id@)),
                        "{blobId}"@,
                        encoded_segment(blob_id@),
                    ),
                    "{type}"@,
                    encoded_segment(type_hint@),
                ),
                "{name}"@,
                encoded_segment(name@),
            ),
    {
        proof {
            reveal_strlit("{accountId}");
            reveal_strlit("{blobId}");
            reveal_strlit("{type}");
            reveal_strlit("{name}");
        }
        let a = replace_all(self.download_url.as_str(), "{accountId}", encode_segment(account_id).as_str());
        let b = replace_all(a.as_str(), "{blobId}", encode_segment(blob_id).as_str());
        let c = replace_all(b.as_str(), "{type}", encode_segment(type_hint).as_str());
        replace_all(c.as_str(), "{name}", encode_segment(name).as_str())
    }

    /// Whether the session enumerates any account; a session without one is
    /// anonymous, which means authentication failed.
    pub fn is_authenticated(&self) -> (r: bool)
        ensures
            r == (self@.accounts.len() > 0),
    {
        self.accounts.len() > 0
    }
}
} // verus!
