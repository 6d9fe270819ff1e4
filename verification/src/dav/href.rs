//! Normalised DAV hrefs: the path of a resource URL, percent-encoding made canonical.

use vstd::prelude::*;
use vstd::utf8::encode_utf8;
use crate::text::{chars_of, lossy_string, push_char, utf8_lossy};
use crate::exchange_ews::types::{trim_chars, trimmed};

verus! {

/// `url::Url`, carried through unchanged.
#[verifier::external_type_specification]
#[verifier::external_body]
pub struct ExUrl(url::Url);

/// `url::ParseError`, carried through unchanged.
#[verifier::external_type_specification]
#[verifier::external_body]
pub struct ExUrlParseError(url::ParseError);

/// Whether `url::Url::parse` accepts a text.
pub uninterp spec fn url_parses(s: Seq<char>) -> bool;

/// `url::Url::parse`. Whether it succeeds is named by `url_parses`; the URL it
/// builds is not described.
#[verifier::external_body]
fn url_parse(s: &str) -> (r: Result<url::Url, url::ParseError>)
    ensures
        r is Ok <==> url_parses(s@),
{
    url::Url::parse(s)
}

/// The path of the URL that `url::Url::join` makes of a reference resolved
/// against a base URL, `None` where the join fails.
pub uninterp spec fn url_joined_path(base: Seq<char>, reference: Seq<char>) -> Option<Seq<char>>;

/// The text (`to_string`) of the URL that `url::Url::join` makes of a
/// reference resolved against a base URL, `None` where the join fails.
pub uninterp spec fn url_joined_text(base: Seq<char>, reference: Seq<char>) -> Option<Seq<char>>;

/// `url::Url::join` on the parsed base, then `Url::path` of the result.
#[verifier::external_body]
fn join_path(base: &str, reference: &str) -> (r: Result<String, url::ParseError>)
    requires
        url_parses(base@),
    ensures
        r is Ok <==> url_joined_path(base@, reference@) is Some,
        r matches Ok(p) ==> Some(p@) == url_joined_path(base@, reference@),
{
    match url::Url::parse(base) {
        Ok(u) => u.join(reference).map(|j| j.path().to_owned()),
        Err(e) => Err(e),
    }
}

/// `url::Url::join` on the parsed base, then `to_string` of the result.
#[verifier::external_body]
fn join_text(base: &str, reference: &str) -> (r: Result<String, url::ParseError>)
    requires
        url_parses(base@),
    ensures
        r is Ok <==> url_joined_text(base@, reference@) is Some,
        r matches Ok(t) ==> Some(t@) == url_joined_text(base@, reference@),
{
    match url::Url::parse(base) {
        Ok(u) => u.join(reference).map(|j| j.to_string()),
        Err(e) => Err(e),
    }
}

/// The path of a URL, as `url::Url::path` gives it.
pub uninterp spec fn url_path_of(u: url::Url) -> Seq<char>;

/// `url::Url::path`, copied into a string. The result is named by
/// `url_path_of`: it is a function of the URL alone.
#[verifier::external_body]
fn url_path(u: &url::Url) -> (r: String)
    ensures
        r@ == url_path_of(*u),
{
    u.path().to_owned()
}

#[derive(Debug, Clone, PartialEq, Eq, Hash)]
pub struct Href(String);

impl View for Href {
    type V = Seq<char>;

    closed spec fn view(&self) -> Seq<char> {
        self.0@
    }
}

impl Href {
    pub fn as_str(&self) -> (r: &str)
        ensures
            r@ == self@,
    {
        self.0.as_str()
    }

    pub fn into_string(self) -> (r: String)
        ensures
            r@ == self@,
    {
        self.0
    }

    /// Wraps a path that is already in canonical form.
    pub fn from_normalised(s: String) -> (r: Href)
        ensures
            r@ == s@,
    {
        Href(s)
    }
}

#[derive(Debug)]
pub enum HrefError {
    InvalidBase { url: String, source: url::ParseError },
    InvalidHref { href: String, base: String, source: url::ParseError },
}

/// An `HrefError` by its texts; the `url::ParseError` it carries is opaque.
pub enum HrefErrorV {
    InvalidBase(Seq<char>),
    InvalidHref(Seq<char>, Seq<char>),
}

impl View for HrefError {
    type V = HrefErrorV;

    open spec fn view(&self) -> HrefErrorV {
        match self {
            HrefError::InvalidBase { url, .. } => HrefErrorV::InvalidBase(url@),
            HrefError::InvalidHref { href, base, .. } => HrefErrorV::InvalidHref(href@, base@),
        }
    }
}

pub open spec fn hex_digit_value(b: u8) -> Option<u8> {
    if 48 <= b <= 57 {
        Some((b - 48) as u8)
    } else if 97 <= b <= 102 {
        Some((b - 97 + 10) as u8)
    } else if 65 <= b <= 70 {
        Some((b - 65 + 10) as u8)
    } else {
        None
    }
}

/// The bytes of `b[i..]` with every `%` followed by two hex digits replaced
/// by the byte they write.
pub open spec fn unescape(b: Seq<u8>, i: int) -> Seq<u8>
    decreases b.len() - i,
{
    if i < 0 || i >= b.len() {
        Seq::empty()
    } else if b[i] == 37 && i + 2 < b.len() && hex_digit_value(b[i + 1]) is Some && hex_digit_value(b[i + 2]) is Some {
        seq![(hex_digit_value(b[i + 1])->0 * 16 + hex_digit_value(b[i + 2])->0) as u8] + unescape(b, i + 3)
    } else {
        seq![b[i]] + unescape(b, i + 1)
    }
}

/// Percent-decoding of a text's UTF-8 bytes, read back as UTF-8 (lossily).
pub open spec fn percent_decoded(s: Seq<char>) -> Seq<char> {
    utf8_lossy(unescape(encode_utf8(s), 0))
}

/// Bytes that stay literal in a canonical path.
pub open spec fn safe_byte(b: u8) -> bool {
    (65 <= b <= 90) || (97 <= b <= 122) || (48 <= b <= 57) || b == 45 || b == 95 || b == 46 || b == 126
        || b == 47 || b == 64
}

pub open spec fn hex_upper_char(n: u8) -> char {
    if n <= 9 {
        ((48 + n) as u8) as char
    } else if n <= 15 {
        ((65 + n - 10) as u8) as char
    } else {
        '0'
    }
}

pub open spec fn encode_byte(b: u8) -> Seq<char> {
    if safe_byte(b) {
        seq![b as char]
    } else {
        seq!['%', hex_upper_char(b / 16), hex_upper_char(b % 16)]
    }
}

/// The first `n` bytes, unsafe ones written as `%XX` with upper-case hex.
pub open spec fn encode_bytes(b: Seq<u8>, n: int) -> Seq<char>
    decreases n,
{
    if n <= 0 {
        Seq::empty()
    } else {
        encode_bytes(b, n - 1) + encode_byte(b[n - 1])
    }
}

pub open spec fn percent_encoded(s: Seq<char>) -> Seq<char> {
    let b = encode_utf8(s);
    encode_bytes(b, b.len() as int)
}

/// The canonical form of a URL path: `/` when empty, otherwise decoded and
/// re-encoded so that escapes are upper-case and safe bytes literal.
pub open spec fn canonical_path(path: Seq<char>) -> Seq<char> {
    let p = if path.len() == 0 { seq!['/'] } else { path };
    percent_encoded(percent_decoded(p))
}

fn hex_val(b: u8) -> (r: Option<u8>)
    ensures
        r == hex_digit_value(b),
{
    if 48 <= b && b <= 57 {
        Some(b - 48)
    } else if 97 <= b && b <= 102 {
        Some(b - 97 + 10)
    } else if 65 <= b && b <= 70 {
        Some(b - 65 + 10)
    } else {
        None
    }
}

fn percent_decode(s: &str) -> (r: String)
    ensures
        r@ == percent_decoded(s@),
{
    let bytes = s.as_bytes();
    let ghost b = bytes@;
    let mut buf: Vec<u8> = Vec::new();
    let mut i: usize = 0;
    while i < bytes.len()
        invariant
            b == bytes@,
            b == encode_utf8(s@),
            i <= b.len(),
            buf@ + unescape(b, i as int) == unescape(b, 0),
        decreases bytes.len() - i,
    {
        if bytes[i] == 37u8 && bytes.len() - i > 2 {
            let h = hex_val(bytes[i + 1]);
            let l = hex_val(bytes[i + 2]);
            if h.is_some() && l.is_some() {
                let hv = h.unwrap();
                let lv = l.unwrap();
                let v: u8 = hv * 16 + lv;
                let ghost before = buf@;
                buf.push(v);
                assert(before + unescape(b, i as int) == buf@ + unescape(b, i + 3));
                i += 3;
                continue;
            }
        }
        let ghost before = buf@;
        buf.push(bytes[i]);
        assert(before + unescape(b, i as int) == buf@ + unescape(b, i + 1));
        i += 1;
    }
    assert(buf@ =~= unescape(b, 0));
    lossy_string(buf.as_slice())
}

fn upper_hex(nibble: u8) -> (r: char)
    ensures
        r == hex_upper_char(nibble),
{
    if nibble <= 9 {
        let c: u8 = 48 + nibble;
        c as char
    } else if nibble <= 15 {
        let c: u8 = 65 + nibble - 10;
        c as char
    } else {
        '0'
    }
}

fn is_safe(b: u8) -> (r: bool)
    ensures
        r == safe_byte(b),
{
    (65 <= b && b <= 90) || (97 <= b && b <= 122) || (48 <= b && b <= 57) || b == 45 || b == 95 || b == 46
        || b == 126 || b == 47 || b == 64
}

fn percent_encode_safe(s: &str) -> (r: String)
    ensures
        r@ == percent_encoded(s@),
{
    let bytes = s.as_bytes();
    let mut out = String::new();
    let mut i: usize = 0;
    while i < bytes.len()
        invariant
            bytes@ == encode_utf8(s@),
            i <= bytes@.len(),
            out@ == encode_bytes(bytes@, i as int),
        decreases bytes.len() - i,
    {
        let byte = bytes[i];
        if is_safe(byte) {
            push_char(&mut out, byte as char);
        } else {
            push_char(&mut out, '%');
            push_char(&mut out, upper_hex(byte / 16));
            push_char(&mut out, upper_hex(byte % 16));
        }
        i += 1;
    }
    out
}

/// The href of a URL path in canonical form.
pub fn canonical_href(path: &str) -> (r: Href)
    ensures
        r@ == canonical_path(path@),
{
    let decoded = if path.is_empty() {
        percent_decode("/")
    } else {
        percent_decode(path)
    };
    proof {
        reveal_strlit("/");
        assert("/"@ =~= seq!['/']);
    }
    Href(percent_encode_safe(decoded.as_str()))
}

/// The canonical href of a URL's path.
pub fn normalise_path(url: &url::Url) -> (r: Href)
    ensures
        r@ == canonical_path(url_path_of(*url)),
{
    let p = url_path(url);
    canonical_href(p.as_str())
}

/// The canonical href of `raw` (trimmed) resolved against `base`, `None`
/// where the reference does not resolve.
pub open spec fn normalised(base: Seq<char>, raw: Seq<char>) -> Option<Seq<char>> {
    match url_joined_path(base, trimmed(raw)) {
        Some(p) => Some(canonical_path(p)),
        None => None,
    }
}

/// Resolves `raw` (trimmed) against `base` and returns its canonical path.
pub fn normalise(base: &str, raw: &str) -> (r: Result<Href, HrefError>)
    ensures
        !url_parses(base@) ==> (r matches Err(HrefError::InvalidBase { url, .. }) && url@ == base@),
        url_parses(base@) ==> match normalised(base@, raw@) {
            Some(h) => r matches Ok(x) && x@ == h,
            None => r matches Err(HrefError::InvalidHref { href, base: b, .. }) && href@ == raw@ && b@ == base@,
        },
{
    match url_parse(base) {
        Ok(_) => {},
        Err(e) => return Err(HrefError::InvalidBase { url: base.to_owned(), source: e }),
    }
    let t = trim_chars(raw);
    match join_path(base, t.as_str()) {
        Ok(p) => Ok(canonical_href(p.as_str())),
        Err(e) => Err(HrefError::InvalidHref { href: raw.to_owned(), base: base.to_owned(), source: e }),
    }
}

/// The absolute URL of `href` relative to `base`.
pub fn absolute_url(base: &str, href: &Href) -> (r: Result<String, HrefError>)
    ensures
        !url_parses(base@) ==> (r matches Err(HrefError::InvalidBase { url, .. }) && url@ == base@),
        url_parses(base@) ==> match url_joined_text(base@, href@) {
            Some(t) => r matches Ok(x) && x@ == t,
            None => r matches Err(HrefError::InvalidHref { href: h, base: b, .. }) && h@ == href@ && b@ == base@,
        },
{
    join_absolute(base, href.as_str())
}

/// The absolute URL of a reference resolved against `base`.
pub fn join_absolute(base: &str, href: &str) -> (r: Result<String, HrefError>)
    ensures
        !url_parses(base@) ==> (r matches Err(HrefError::InvalidBase { url, .. }) && url@ == base@),
        url_parses(base@) ==> match url_joined_text(base@, href@) {
            Some(t) => r matches Ok(x) && x@ == t,
            None => r matches Err(HrefError::InvalidHref { href: h, base: b, .. }) && h@ == href@ && b@ == base@,
        },
{
    match url_parse(base) {
        Ok(_) => {},
        Err(e) => return Err(HrefError::InvalidBase { url: base.to_owned(), source: e }),
    }
    match join_text(base, href) {
        Ok(t) => Ok(t),
        Err(e) => Err(HrefError::InvalidHref { href: href.to_owned(), base: base.to_owned(), source: e }),
    }
}

/// The text without its trailing slashes.
pub open spec fn strip_trailing_slashes(s: Seq<char>) -> Seq<char>
    decreases s.len(),
{
    if s.len() > 0 && s.last() == '/' {
        strip_trailing_slashes(s.drop_last())
    } else {
        s
    }
}

/// The part after the last slash (all of it when there is none).
pub open spec fn after_last_slash(s: Seq<char>) -> Seq<char>
    decreases s.len(),
{
    if s.len() == 0 {
        s
    } else if s.last() == '/' {
        Seq::empty()
    } else {
        after_last_slash(s.drop_last()).push(s.last())
    }
}

/// The index of the last slash, if any.
pub open spec fn last_slash(s: Seq<char>) -> Option<int>
    decreases s.len(),
{
    if s.len() == 0 {
        None
    } else if s.last() == '/' {
        Some(s.len() - 1)
    } else {
        last_slash(s.drop_last())
    }
}

fn trim_end_slashes(v: &Vec<char>) -> (r: usize)
    ensures
        r <= v@.len(),
        v@.take(r as int) == strip_trailing_slashes(v@),
{
    let mut n: usize = v.len();
    assert(v@.take(n as int) =~= v@);
    while n > 0 && v[n - 1] == '/'
        invariant
            n <= v@.len(),
            strip_trailing_slashes(v@.take(n as int)) == strip_trailing_slashes(v@),
        decreases n,
    {
        assert(v@.take(n as int).drop_last() =~= v@.take(n - 1));
        n -= 1;
    }
    n
}

/// The last segment of the href, percent-decoded.
pub fn last_path_component(href: &Href) -> (r: String)
    ensures
        r@ == percent_decoded(after_last_slash(strip_trailing_slashes(href@))),
{
    let v = chars_of(href.as_str());
    let n = trim_end_slashes(&v);
    let ghost t = v@.take(n as int);
    assert(t.take(n as int) =~= t);
    assert(t.subrange(n as int, n as int) =~= Seq::<char>::empty());
    let mut start: usize = n;
    while start > 0 && v[start - 1] != '/'
        invariant
            start <= n <= v@.len(),
            t == v@.take(n as int),
            after_last_slash(t) == after_last_slash(t.take(start as int)) + t.subrange(start as int, n as int),
        decreases start,
    {
        assert(t.take(start as int).drop_last() =~= t.take(start - 1));
        assert(t.subrange(start - 1, n as int) =~= seq![t[start - 1]] + t.subrange(start as int, n as int));
        start -= 1;
    }
    if start > 0 {
        assert(after_last_slash(t.take(start as int)) =~= Seq::<char>::empty());
    } else {
        assert(after_last_slash(t.take(0)) =~= Seq::<char>::empty());
    }
    let mut tail = String::new();
    let mut k: usize = start;
    while k < n
        invariant
            start <= k <= n <= v@.len(),
            t == v@.take(n as int),
            tail@ == t.subrange(start as int, k as int),
        decreases n - k,
    {
        push_char(&mut tail, v[k]);
        k += 1;
        assert(t.subrange(start as int, k as int) =~= t.subrange(start as int, k - 1).push(t[k - 1]));
    }
    assert(after_last_slash(t) =~= tail@);
    percent_decode(tail.as_str())
}

/// The collection holding a path: everything up to and including the last
/// slash once trailing slashes are removed, or `/` where no slash is left.
pub open spec fn parent_path(h: Seq<char>) -> Seq<char> {
    match last_slash(strip_trailing_slashes(h)) {
        Some(i) => strip_trailing_slashes(h).take(i + 1),
        None => "/"@,
    }
}

/// The collection holding the href: everything up to and including the last
/// slash once trailing slashes are removed, or `/`.
pub fn parent_collection(href: &Href) -> (r: Href)
    ensures
        r@ == parent_path(href@),
{
    let v = chars_of(href.as_str());
    let n = trim_end_slashes(&v);
    let ghost t = v@.take(n as int);
    assert(t.take(n as int) =~= t);
    let mut k: usize = n;
    while k > 0 && v[k - 1] != '/'
        invariant
            k <= n <= v@.len(),
            t == v@.take(n as int),
            last_slash(t) == last_slash(t.take(k as int)),
        decreases k,
    {
        assert(t.take(k as int).drop_last() =~= t.take(k - 1));
        k -= 1;
    }
    if k == 0 {
        assert(t.take(0) =~= Seq::<char>::empty());
        return Href("/".to_owned());
    }
    assert(t.take(k as int).last() == '/');
    let mut out = String::new();
    let mut j: usize = 0;
    while j < k
        invariant
            j <= k <= n <= v@.len(),
            t == v@.take(n as int),
            out@ == t.take(j as int),
        decreases k - j,
    {
        push_char(&mut out, v[j]);
        j += 1;
        assert(t.take(j as int) =~= t.take(j - 1).push(t[j - 1]));
    }
    Href(out)
}

proof fn lemma_stripped_prefix(s: Seq<char>)
    ensures
        strip_trailing_slashes(s).len() <= s.len(),
        strip_trailing_slashes(s) == s.take(strip_trailing_slashes(s).len() as int),
        strip_trailing_slashes(s).len() == 0 || strip_trailing_slashes(s).last() != '/',
    decreases s.len(),
{
    if s.len() > 0 && s.last() == '/' {
        lemma_stripped_prefix(s.drop_last());
        let t = strip_trailing_slashes(s.drop_last());
        assert(s.drop_last().take(t.len() as int) =~= s.take(t.len() as int));
    } else {
        assert(s.take(s.len() as int) =~= s);
    }
}

proof fn lemma_last_slash(s: Seq<char>)
    ensures
        match last_slash(s) {
            Some(i) => 0 <= i < s.len() && s[i] == '/' && after_last_slash(s) == s.skip(i + 1),
            None => after_last_slash(s) == s,
        },
    decreases s.len(),
{
    if s.len() > 0 {
        lemma_last_slash(s.drop_last());
        if s.last() == '/' {
            assert(s.skip(s.len() as int) =~= Seq::<char>::empty());
        } else {
            match last_slash(s.drop_last()) {
                Some(i) => {
                    assert(s.skip(i + 1) =~= s.drop_last().skip(i + 1).push(s.last()));
                },
                None => {
                    assert(s =~= s.drop_last().push(s.last()));
                },
            }
        }
    }
}

/// The collection that holds an href is a prefix of it that ends with a
/// slash, and, where the href (without its trailing slashes) has a slash, the
/// href without its trailing slashes is that collection followed by its last
/// segment as written.
pub proof fn law_parent_holds_the_href(h: Seq<char>)
    ensures
        parent_path(h).len() > 0,
        parent_path(h).last() == '/',
        last_slash(strip_trailing_slashes(h)) is Some ==> h.take(parent_path(h).len() as int) == parent_path(h)
            && strip_trailing_slashes(h) == parent_path(h) + after_last_slash(strip_trailing_slashes(h)),
{
    reveal_strlit("/");
    let t = strip_trailing_slashes(h);
    lemma_stripped_prefix(h);
    lemma_last_slash(t);
    match last_slash(t) {
        Some(i) => {
            assert(t.take(i + 1).last() == t[i]);
            assert(h.take(i + 1) =~= t.take(i + 1));
            assert(t =~= t.take(i + 1) + t.skip(i + 1));
        },
        None => {},
    }
}

/// Trailing slashes change neither the collection that holds an href nor its
/// last segment.
pub proof fn law_trailing_slash_ignored(h: Seq<char>)
    ensures
        parent_path(h.push('/')) == parent_path(h),
        after_last_slash(strip_trailing_slashes(h.push('/'))) == after_last_slash(strip_trailing_slashes(h)),
{
    assert(h.push('/').drop_last() =~= h);
}

} // verus!
