//! Character-level helpers shared by the protocol modules.

use vstd::prelude::*;

verus! {

/// The ASCII lower-case image of a character; other characters are unchanged.
pub open spec fn lower_char(c: char) -> char {
    if 'A' <= c && c <= 'Z' {
        ((c as u32) + 32) as char
    } else {
        c
    }
}

/// The ASCII upper-case image of a character; other characters are unchanged.
pub open spec fn upper_char(c: char) -> char {
    if 'a' <= c && c <= 'z' {
        ((c as u32) - 32) as char
    } else {
        c
    }
}

pub open spec fn lower_seq(s: Seq<char>) -> Seq<char> {
    s.map_values(|c: char| lower_char(c))
}

pub open spec fn upper_seq(s: Seq<char>) -> Seq<char> {
    s.map_values(|c: char| upper_char(c))
}

/// Equality of two texts when ASCII letters are compared without regard to case.
pub open spec fn eq_ignore_case(a: Seq<char>, b: Seq<char>) -> bool {
    lower_seq(a) == lower_seq(b)
}

/// `needle` occurs in `hay` at some position.
pub open spec fn contains_seq(hay: Seq<char>, needle: Seq<char>) -> bool {
    exists|i: int| 0 <= i && i + needle.len() <= hay.len() && #[trigger] hay.subrange(i, i + needle.len()) == needle
}

pub fn lower(c: char) -> (r: char)
    ensures
        r == lower_char(c),
{
    if 'A' <= c && c <= 'Z' {
        let v: u32 = c as u32 + 32;
        let r = char_from_ascii_code(v);
        r
    } else {
        c
    }
}

/// A character from an ASCII code point.
fn char_from_ascii_code(v: u32) -> (r: char)
    requires
        v < 128,
    ensures
        r == v as char,
{
    let b: u8 = v as u8;
    b as char
}

/// Appends one character to a string (`String::push`).
#[verifier::external_body]
pub fn push_char(s: &mut String, c: char)
    ensures
        final(s)@ == old(s)@.push(c),
{
    s.push(c);
}

/// The characters of a string, in order.
pub fn chars_of(s: &str) -> (v: Vec<char>)
    ensures
        v@ == s@,
{
    let mut v: Vec<char> = Vec::new();
    for c in it: s.chars()
        invariant
            v@ == it.seq().take(it.index() as int),
    {
        v.push(c);
    }
    v
}


/// Two character sequences held in vectors are equal.
pub fn chars_eq(a: &Vec<char>, b: &Vec<char>) -> (r: bool)
    ensures
        r == (a@ == b@),
{
    if a.len() != b.len() {
        return false;
    }
    let mut i: usize = 0;
    while i < a.len()
        invariant
            a@.len() == b@.len(),
            i <= a@.len(),
            forall|j: int| 0 <= j < i ==> a@[j] == b@[j],
        decreases a.len() - i,
    {
        if a[i] != b[i] {
            return false;
        }
        i += 1;
    }
    assert(a@ =~= b@);
    true
}

/// Exact equality of two strings.
pub fn str_eq(a: &str, b: &str) -> (r: bool)
    ensures
        r == (a@ == b@),
{
    let va = chars_of(a);
    let vb = chars_of(b);
    chars_eq(&va, &vb)
}

/// Equality ignoring ASCII case, as `str::eq_ignore_ascii_case`.
pub fn str_eq_ignore_case(a: &str, b: &str) -> (r: bool)
    ensures
        r == eq_ignore_case(a@, b@),
{
    let va = chars_of(a);
    let vb = chars_of(b);
    if va.len() != vb.len() {
        assert(lower_seq(a@).len() != lower_seq(b@).len());
        return false;
    }
    let mut i: usize = 0;
    while i < va.len()
        invariant
            va@ == a@,
            vb@ == b@,
            va@.len() == vb@.len(),
            i <= va@.len(),
            forall|j: int| 0 <= j < i ==> lower_char(va@[j]) == lower_char(vb@[j]),
        decreases va.len() - i,
    {
        if lower(va[i]) != lower(vb[i]) {
            assert(lower_seq(a@)[i as int] != lower_seq(b@)[i as int]);
            return false;
        }
        i += 1;
    }
    assert(lower_seq(a@) =~= lower_seq(b@));
    true
}

/// The string with ASCII letters lowered.
pub fn to_lower(s: &str) -> (r: String)
    ensures
        r@ == lower_seq(s@),
{
    let v = chars_of(s);
    let mut out = String::new();
    let mut i: usize = 0;
    while i < v.len()
        invariant
            v@ == s@,
            i <= v@.len(),
            out@ == lower_seq(s@).take(i as int),
        decreases v.len() - i,
    {
        push_char(&mut out, lower(v[i]));
        i += 1;
        assert(lower_seq(s@).take(i as int) =~= lower_seq(s@).take(i - 1).push(lower_char(v@[i - 1])));
    }
    assert(lower_seq(s@).take(i as int) =~= lower_seq(s@));
    out
}

/// The decimal digit character for `d < 10`.
pub open spec fn digit_char(d: nat) -> char {
    ((d + 48) as u32) as char
}

/// The shortest decimal numeral of `n`, as `to_string` writes it.
pub open spec fn decimal(n: nat) -> Seq<char>
    decreases n,
{
    if n < 10 {
        seq![digit_char(n)]
    } else {
        decimal(n / 10).push(digit_char(n % 10))
    }
}

/// The decimal numeral of `n` (`u64::to_string`).
pub fn decimal_string(n: u64) -> (r: String)
    ensures
        r@ == decimal(n as nat),
{
    let mut digits: Vec<char> = Vec::new();
    let mut rest: u64 = n;
    while rest >= 10
        invariant
            decimal(n as nat) == decimal(rest as nat) + digits@,
        decreases rest,
    {
        let d: u64 = rest % 10;
        let c = char_from_ascii_code((d + 48) as u32);
        digits.insert(0, c);
        assert(decimal(rest as nat) == decimal((rest / 10) as nat).push(digit_char((rest % 10) as nat)));
        rest = rest / 10;
    }
    let c0 = char_from_ascii_code((rest + 48) as u32);
    let mut out = String::new();
    push_char(&mut out, c0);
    let mut i: usize = 0;
    while i < digits.len()
        invariant
            out@ == seq![digit_char(rest as nat)] + digits@.take(i as int),
            i <= digits@.len(),
            decimal(n as nat) == decimal(rest as nat) + digits@,
            rest < 10,
        decreases digits.len() - i,
    {
        push_char(&mut out, digits[i]);
        i += 1;
        assert(digits@.take(i as int) =~= digits@.take(i - 1).push(digits@[i - 1]));
    }
    assert(digits@.take(i as int) =~= digits@);
    out
}

/// Whether `needle` occurs in `hay` at position `at`.
fn occurs_at(hay: &Vec<char>, needle: &Vec<char>, at: usize) -> (r: bool)
    requires
        at + needle@.len() <= hay@.len(),
    ensures
        r == (hay@.subrange(at as int, at + needle@.len()) == needle@),
{
    let mut j: usize = 0;
    while j < needle.len()
        invariant
            at + needle@.len() <= hay@.len(),
            hay@.len() == hay.len(),
            j <= needle@.len(),
            forall|k: int| 0 <= k < j ==> hay@[at + k] == needle@[k],
        decreases needle.len() - j,
    {
        if hay[at + j] != needle[j] {
            assert(hay@.subrange(at as int, at + needle@.len())[j as int] != needle@[j as int]);
            return false;
        }
        j += 1;
    }
    assert(hay@.subrange(at as int, at + needle@.len()) =~= needle@);
    true
}

/// Substring search over character vectors.
pub fn chars_contain(hay: &Vec<char>, needle: &Vec<char>) -> (r: bool)
    ensures
        r == contains_seq(hay@, needle@),
{
    if needle.len() > hay.len() {
        return false;
    }
    let last: usize = hay.len() - needle.len();
    let mut at: usize = 0;
    loop
        invariant_except_break
            last + needle@.len() == hay@.len(),
            at <= last,
            forall|k: int| 0 <= k < at ==> #[trigger] hay@.subrange(k, k + needle@.len()) != needle@,
        ensures
            forall|k: int| 0 <= k <= last ==> #[trigger] hay@.subrange(k, k + needle@.len()) != needle@,
            last + needle@.len() == hay@.len(),
        decreases last - at,
    {
        if occurs_at(hay, needle, at) {
            assert(hay@.subrange(at as int, at + needle@.len()) == needle@);
            return true;
        }
        if at == last {
            break;
        }
        at += 1;
    }
    assert forall|k: int| 0 <= k && k + needle@.len() <= hay@.len() implies #[trigger] hay@.subrange(k, k + needle@.len()) != needle@ by {
        assert(k <= last);
    }
    false
}

/// Substring search, as `str::contains` with a `&str` pattern.
pub fn str_contains(hay: &str, needle: &str) -> (r: bool)
    ensures
        r == contains_seq(hay@, needle@),
{
    let h = chars_of(hay);
    let n = chars_of(needle);
    chars_contain(&h, &n)
}

pub fn upper(c: char) -> (r: char)
    ensures
        r == upper_char(c),
{
    if 'a' <= c && c <= 'z' {
        let v: u32 = c as u32 - 32;
        char_from_ascii_code(v)
    } else {
        c
    }
}

/// The string with ASCII letters raised (`str::to_ascii_uppercase`).
pub fn to_upper(s: &str) -> (r: String)
    ensures
        r@ == upper_seq(s@),
{
    let v = chars_of(s);
    let mut out = String::new();
    let mut i: usize = 0;
    while i < v.len()
        invariant
            v@ == s@,
            i <= v@.len(),
            out@ == upper_seq(s@).take(i as int),
        decreases v.len() - i,
    {
        push_char(&mut out, upper(v[i]));
        i += 1;
        assert(upper_seq(s@).take(i as int) =~= upper_seq(s@).take(i - 1).push(upper_char(v@[i - 1])));
    }
    assert(upper_seq(s@).take(i as int) =~= upper_seq(s@));
    out
}

/// What `format!("{:?}", s)` writes for a string.
pub uninterp spec fn debug_text(s: Seq<char>) -> Seq<char>;

/// `format!("{:?}", s)`: the Rust debug rendering of a string, named by
/// `debug_text`. Its escaping rules are not stated.
#[verifier::external_body]
pub(crate) fn debug_string(s: &str) -> (r: String)
    ensures
        r@ == debug_text(s@),
{
    format!("{:?}", s)
}

/// What `String::from_utf8_lossy` makes of a byte sequence.
pub uninterp spec fn utf8_lossy(b: Seq<u8>) -> Seq<char>;

/// `String::from_utf8_lossy(b).into_owned()`. Its result is named by
/// `utf8_lossy`; as the std documentation states, valid UTF-8 is decoded
/// unchanged. How invalid sequences are replaced is not stated.
#[verifier::external_body]
pub fn lossy_string(b: &[u8]) -> (r: String)
    ensures
        r@ == utf8_lossy(b@),
        vstd::utf8::valid_utf8(b@) ==> r@ == vstd::utf8::decode_utf8(b@),
{
    String::from_utf8_lossy(b).into_owned()
}

/// The XML form of one character: the five metacharacters as entities.
pub open spec fn xml_entity(c: char) -> Seq<char> {
    if c == '&' {
        "&amp;"@
    } else if c == '<' {
        "&lt;"@
    } else if c == '>' {
        "&gt;"@
    } else if c == '"' {
        "&quot;"@
    } else if c == '\'' {
        "&apos;"@
    } else {
        seq![c]
    }
}

/// Text escaped for XML character data and attribute values.
pub open spec fn xml_escape(s: Seq<char>) -> Seq<char>
    decreases s.len(),
{
    if s.len() == 0 {
        Seq::empty()
    } else {
        xml_escape(s.drop_last()) + xml_entity(s.last())
    }
}

/// Appends `s` escaped for XML.
pub fn append_xml_escaped(out: &mut String, s: &str)
    ensures
        final(out)@ == old(out)@ + xml_escape(s@),
{
    let ghost start = out@;
    let v = chars_of(s);
    let mut i: usize = 0;
    while i < v.len()
        invariant
            v@ == s@,
            i <= v@.len(),
            out@ == start + xml_escape(s@.take(i as int)),
        decreases v.len() - i,
    {
        let ch = v[i];
        if ch == '&' {
            out.append("&amp;");
        } else if ch == '<' {
            out.append("&lt;");
        } else if ch == '>' {
            out.append("&gt;");
        } else if ch == '"' {
            out.append("&quot;");
        } else if ch == '\'' {
            out.append("&apos;");
        } else {
            push_char(out, ch);
        }
        i += 1;
        assert(s@.take(i as int).drop_last() =~= s@.take(i - 1));
    }
    assert(s@.take(i as int) =~= s@);
}

} // verus!

verus! {

pub open spec fn is_digit(c: char) -> bool {
    '0' <= c && c <= '9'
}

/// The value of a run of decimal digits.
pub open spec fn digits_value(d: Seq<char>) -> nat
    decreases d.len(),
{
    if d.len() == 0 {
        0
    } else {
        digits_value(d.drop_last()) * 10 + ((d.last() as nat) - 48) as nat
    }
}

pub open spec fn all_digits(d: Seq<char>) -> bool {
    forall|i: int| 0 <= i < d.len() ==> is_digit(#[trigger] d[i])
}

/// The digits after an optional leading `+`.
pub open spec fn unsigned_digits(s: Seq<char>) -> Seq<char> {
    if s.len() > 0 && s[0] == '+' { s.drop_first() } else { s }
}

/// What `str::parse` gives for an unsigned integer type whose largest value is
/// `max`: an optional `+`, then one or more decimal digits whose value is at
/// most `max`.
pub open spec fn unsigned_value(s: Seq<char>, max: nat) -> Option<nat> {
    let d = unsigned_digits(s);
    if d.len() > 0 && all_digits(d) && digits_value(d) <= max {
        Some(digits_value(d))
    } else {
        None
    }
}

/// What `str::parse::<i64>` gives: an optional sign, then one or more decimal
/// digits, the signed value within the range of `i64`.
pub open spec fn signed_value(s: Seq<char>) -> Option<int> {
    if s.len() > 0 && s[0] == '-' {
        let d = s.drop_first();
        if d.len() > 0 && all_digits(d) && digits_value(d) <= 0x8000_0000_0000_0000 {
            Some(-(digits_value(d) as int))
        } else {
            None
        }
    } else {
        match unsigned_value(s, 0x7fff_ffff_ffff_ffff) {
            Some(v) => Some(v as int),
            None => None,
        }
    }
}

/// The value of the decimal digits `s[from..]`, at most `max` (`None` when a
/// character is not a digit, the run is empty, or the value is larger).
fn digits_from(s: &Vec<char>, from: usize, max: u64) -> (r: Option<u64>)
    requires
        from <= s@.len(),
    ensures
        ({
            let d = s@.subrange(from as int, s@.len() as int);
            &&& r is Some <==> (d.len() > 0 && all_digits(d) && digits_value(d) <= max)
            &&& r matches Some(v) ==> v == digits_value(d)
        }),
{
    let ghost all = s@.subrange(from as int, s@.len() as int);
    if from >= s.len() {
        return None;
    }
    let mut n: u128 = 0;
    let mut i: usize = from;
    while i < s.len()
        invariant
            from <= i <= s@.len(),
            all == s@.subrange(from as int, s@.len() as int),
            all_digits(s@.subrange(from as int, i as int)),
            n == digits_value(s@.subrange(from as int, i as int)),
            n <= max,
        decreases s.len() - i,
    {
        let c = s[i];
        if !('0' <= c && c <= '9') {
            assert(all[i - from] == c);
            return None;
        }
        let dig = (c as u32 - 48) as u128;
        let next = n * 10 + dig;
        proof {
            let pre = s@.subrange(from as int, i as int);
            let post = s@.subrange(from as int, i + 1);
            assert(post.drop_last() =~= pre);
            assert(post.last() == c);
            assert(all_digits(post)) by {
                assert forall|k: int| 0 <= k < post.len() implies is_digit(#[trigger] post[k]) by {
                    if k < pre.len() {
                        assert(post[k] == pre[k]);
                    }
                }
            }
        }
        if next > max as u128 {
            proof {
                if all_digits(all) {
                    lemma_digits_value_grows(all, (i + 1 - from) as int);
                    assert(all.take((i + 1 - from) as int) =~= s@.subrange(from as int, i + 1));
                }
            }
            return None;
        }
        n = next;
        i = i + 1;
    }
    assert(all =~= s@.subrange(from as int, i as int));
    Some(n as u64)
}

/// A longer run of digits is worth at least as much as its prefix.
proof fn lemma_digits_value_grows(d: Seq<char>, k: int)
    requires
        0 <= k <= d.len(),
        all_digits(d),
    ensures
        digits_value(d.take(k)) <= digits_value(d),
    decreases d.len() - k,
{
    if k < d.len() {
        lemma_digits_value_grows(d, k + 1);
        assert(d.take(k + 1).drop_last() =~= d.take(k));
        assert(is_digit(d[k]));
    } else {
        assert(d.take(k) =~= d);
    }
}

/// `str::parse` for an unsigned integer type whose largest value is `max`.
pub fn parse_unsigned(s: &str, max: u64) -> (r: Option<u64>)
    ensures
        match unsigned_value(s@, max as nat) {
            Some(v) => r == Some(v as u64),
            None => r is None,
        },
{
    let chars = chars_of(s);
    let start: usize = if chars.len() > 0 && chars[0] == '+' { 1 } else { 0 };
    assert(unsigned_digits(s@) =~= s@.subrange(start as int, s@.len() as int));
    digits_from(&chars, start, max)
}

/// `str::parse::<i64>`.
pub fn parse_i64(s: &str) -> (r: Option<i64>)
    ensures
        match signed_value(s@) {
            Some(v) => r == Some(v as i64),
            None => r is None,
        },
{
    let chars = chars_of(s);
    if chars.len() > 0 && chars[0] == '-' {
        assert(s@.drop_first() =~= s@.subrange(1, s@.len() as int));
        match digits_from(&chars, 1, 0x8000_0000_0000_0000) {
            Some(m) => {
                if m == 0x8000_0000_0000_0000 {
                    Some(i64::MIN)
                } else {
                    Some(-(m as i64))
                }
            },
            None => None,
        }
    } else {
        let start: usize = if chars.len() > 0 && chars[0] == '+' { 1 } else { 0 };
        assert(unsigned_digits(s@) =~= s@.subrange(start as int, s@.len() as int));
        match digits_from(&chars, start, 0x7fff_ffff_ffff_ffff) {
            Some(m) => Some(m as i64),
            None => None,
        }
    }
}

/// ASCII whitespace as `split_ascii_whitespace` knows it.
pub open spec fn ascii_space(c: char) -> bool {
    c == ' ' || c == '\t' || c == '\n' || c == '\x0C' || c == '\r'
}

/// The words finished so far and the word in progress after reading `s`.
pub open spec fn word_state(s: Seq<char>) -> (Seq<Seq<char>>, Seq<char>)
    decreases s.len(),
{
    if s.len() == 0 {
        (Seq::empty(), Seq::empty())
    } else {
        let (done, cur) = word_state(s.drop_last());
        if ascii_space(s.last()) {
            if cur.len() > 0 {
                (done.push(cur), Seq::empty())
            } else {
                (done, Seq::empty())
            }
        } else {
            (done, cur.push(s.last()))
        }
    }
}

/// The words of `s`, separated by runs of ASCII whitespace.
pub open spec fn ascii_words(s: Seq<char>) -> Seq<Seq<char>> {
    let (done, cur) = word_state(s);
    if cur.len() > 0 {
        done.push(cur)
    } else {
        done
    }
}


/// The text of a vector of characters.
pub fn string_from_chars(v: &Vec<char>) -> (r: String)
    ensures
        r@ == v@,
{
    let mut out = String::new();
    let mut i: usize = 0;
    while i < v.len()
        invariant
            i <= v@.len(),
            out@ == v@.take(i as int),
        decreases v.len() - i,
    {
        push_char(&mut out, v[i]);
        assert(v@.take(i + 1) =~= v@.take(i as int).push(v@[i as int]));
        i = i + 1;
    }
    assert(v@.take(i as int) =~= v@);
    out
}

/// `str::split_ascii_whitespace`, collected.
pub fn ascii_words_of(v: &str) -> (r: Vec<String>)
    ensures
        r@.map_values(|s: String| s@) == ascii_words(v@),
{
    let chars = chars_of(v);
    let mut done: Vec<String> = Vec::new();
    let mut cur: Vec<char> = Vec::new();
    let mut i: usize = 0;
    assert(v@.take(0) =~= Seq::<char>::empty());
    while i < chars.len()
        invariant
            chars@ == v@,
            i <= chars@.len(),
            done@.map_values(|s: String| s@) == word_state(v@.take(i as int)).0,
            cur@ == word_state(v@.take(i as int)).1,
        decreases chars.len() - i,
    {
        let c = chars[i];
        assert(v@.take(i + 1).drop_last() =~= v@.take(i as int));
        assert(v@.take(i + 1).last() == c);
        if c == ' ' || c == '\t' || c == '\n' || c == '\x0C' || c == '\r' {
            if cur.len() > 0 {
                let w = string_from_chars(&cur);
                let ghost before = done@.map_values(|s: String| s@);
                done.push(w);
                assert(done@.map_values(|s: String| s@) =~= before.push(cur@));
                cur = Vec::new();
            }
        } else {
            cur.push(c);
        }
        i += 1;
    }
    assert(v@.take(i as int) =~= v@);
    if cur.len() > 0 {
        let w = string_from_chars(&cur);
        let ghost before = done@.map_values(|s: String| s@);
        done.push(w);
        assert(done@.map_values(|s: String| s@) =~= before.push(cur@));
    }
    done
}


/// The XML form of a character in text (`quote` false) or in a quoted
/// attribute value (`quote` true): `&`, `<`, `>` and, in attributes, `"`.
pub open spec fn markup_entity(c: char, quote: bool) -> Seq<char> {
    if c == '&' {
        "&amp;"@
    } else if c == '<' {
        "&lt;"@
    } else if c == '>' {
        "&gt;"@
    } else if quote && c == '"' {
        "&quot;"@
    } else {
        seq![c]
    }
}

pub open spec fn markup_escape(s: Seq<char>, quote: bool) -> Seq<char>
    decreases s.len(),
{
    if s.len() == 0 {
        Seq::empty()
    } else {
        markup_escape(s.drop_last(), quote) + markup_entity(s.last(), quote)
    }
}

/// Appends `s` with the characters of markup written as entities.
pub fn append_markup_escaped(out: &mut String, s: &str, quote: bool)
    ensures
        final(out)@ == old(out)@ + markup_escape(s@, quote),
{
    let ghost start = out@;
    let v = chars_of(s);
    let mut i: usize = 0;
    while i < v.len()
        invariant
            v@ == s@,
            i <= v@.len(),
            out@ == start + markup_escape(s@.take(i as int), quote),
        decreases v.len() - i,
    {
        let ch = v[i];
        if ch == '&' {
            out.append("&amp;");
        } else if ch == '<' {
            out.append("&lt;");
        } else if ch == '>' {
            out.append("&gt;");
        } else if quote && ch == '"' {
            out.append("&quot;");
        } else {
            push_char(out, ch);
        }
        i += 1;
        assert(s@.take(i as int).drop_last() =~= s@.take(i - 1));
    }
    assert(s@.take(i as int) =~= s@);
}

/// ASCII lower case of a byte.
pub open spec fn lower_byte(b: u8) -> u8 {
    if 65 <= b <= 90 { (b + 32) as u8 } else { b }
}

/// Bytes equal but for ASCII case (`eq_ignore_ascii_case`).
pub open spec fn bytes_eq_ignore_case(a: Seq<u8>, b: Seq<u8>) -> bool {
    a.len() == b.len() && forall|i: int| 0 <= i < a.len() ==> lower_byte(#[trigger] a[i]) == lower_byte(b[i])
}

pub fn bytes_equal_ignore_case(a: &[u8], b: &[u8]) -> (r: bool)
    ensures
        r == bytes_eq_ignore_case(a@, b@),
{
    if a.len() != b.len() {
        return false;
    }
    let mut i: usize = 0;
    while i < a.len()
        invariant
            a@.len() == b@.len(),
            i <= a@.len(),
            forall|k: int| 0 <= k < i ==> lower_byte(#[trigger] a@[k]) == lower_byte(b@[k]),
        decreases a.len() - i,
    {
        let x = a[i];
        let y = b[i];
        let lx = if 65 <= x && x <= 90 { x + 32 } else { x };
        let ly = if 65 <= y && y <= 90 { y + 32 } else { y };
        if lx != ly {
            return false;
        }
        i += 1;
    }
    true
}


/// Escaped text holds no raw markup: no `<` and no `>`.
pub proof fn law_xml_escape_has_no_markup(s: Seq<char>)
    ensures
        forall|i: int| 0 <= i < xml_escape(s).len() ==> #[trigger] xml_escape(s)[i] != '<' && xml_escape(s)[i] != '>',
    decreases s.len(),
{
    reveal_strlit("&amp;");
    reveal_strlit("&lt;");
    reveal_strlit("&gt;");
    reveal_strlit("&quot;");
    reveal_strlit("&apos;");
    if s.len() > 0 {
        law_xml_escape_has_no_markup(s.drop_last());
        let a = xml_escape(s.drop_last());
        let b = xml_entity(s.last());
        assert forall|i: int| 0 <= i < (a + b).len() implies #[trigger] (a + b)[i] != '<' && (a + b)[i] != '>' by {
            if i >= a.len() {
                assert((a + b)[i] == b[i - a.len()]);
            } else {
                assert((a + b)[i] == a[i]);
            }
        }
    }
}

/// XML text with the five predefined entities read back as the characters
/// they stand for.
pub open spec fn xml_unescape(t: Seq<char>) -> Seq<char>
    decreases t.len(),
{
    if t.len() == 0 {
        Seq::empty()
    } else if t.len() >= 5 && t.take(5) == "&amp;"@ {
        seq!['&'] + xml_unescape(t.skip(5))
    } else if t.len() >= 4 && t.take(4) == "&lt;"@ {
        seq!['<'] + xml_unescape(t.skip(4))
    } else if t.len() >= 4 && t.take(4) == "&gt;"@ {
        seq!['>'] + xml_unescape(t.skip(4))
    } else if t.len() >= 6 && t.take(6) == "&quot;"@ {
        seq!['"'] + xml_unescape(t.skip(6))
    } else if t.len() >= 6 && t.take(6) == "&apos;"@ {
        seq!['\''] + xml_unescape(t.skip(6))
    } else {
        seq![t[0]] + xml_unescape(t.skip(1))
    }
}

proof fn lemma_xml_escape_front(c: char, s: Seq<char>)
    ensures
        xml_escape(seq![c] + s) == xml_entity(c) + xml_escape(s),
    decreases s.len(),
{
    let t = seq![c] + s;
    if s.len() == 0 {
        assert(t.drop_last() =~= Seq::<char>::empty());
        assert(t.last() == c);
        assert(xml_escape(t.drop_last()) == Seq::<char>::empty());
        assert(xml_escape(s) == Seq::<char>::empty());
        assert(xml_escape(t) =~= xml_entity(c) + xml_escape(s));
    } else {
        lemma_xml_escape_front(c, s.drop_last());
        assert(t.drop_last() =~= seq![c] + s.drop_last());
        assert(t.last() == s.last());
        assert(xml_escape(t) == xml_escape(seq![c] + s.drop_last()) + xml_entity(s.last()));
        assert(xml_escape(s) == xml_escape(s.drop_last()) + xml_entity(s.last()));
        assert(xml_escape(t) =~= xml_entity(c) + xml_escape(s));
    }
}

proof fn lemma_markup_escape_front(c: char, s: Seq<char>, quote: bool)
    ensures
        markup_escape(seq![c] + s, quote) == markup_entity(c, quote) + markup_escape(s, quote),
    decreases s.len(),
{
    let t = seq![c] + s;
    if s.len() == 0 {
        assert(t.drop_last() =~= Seq::<char>::empty());
        assert(t.last() == c);
        assert(markup_escape(t.drop_last(), quote) == Seq::<char>::empty());
        assert(markup_escape(s, quote) == Seq::<char>::empty());
        assert(markup_escape(t, quote) =~= markup_entity(c, quote) + markup_escape(s, quote));
    } else {
        lemma_markup_escape_front(c, s.drop_last(), quote);
        assert(t.drop_last() =~= seq![c] + s.drop_last());
        assert(t.last() == s.last());
        assert(markup_escape(t, quote) == markup_escape(seq![c] + s.drop_last(), quote) + markup_entity(s.last(), quote));
        assert(markup_escape(s, quote) == markup_escape(s.drop_last(), quote) + markup_entity(s.last(), quote));
        assert(markup_escape(t, quote) =~= markup_entity(c, quote) + markup_escape(s, quote));
    }
}

/// Reading back an entity, or a plain character, in front of the rest.
proof fn lemma_unescape_front(e: Seq<char>, c: char, rest: Seq<char>)
    requires
        e == xml_entity(c) || e == seq![c],
        e == seq![c] ==> c != '&',
    ensures
        xml_unescape(e + rest) == seq![c] + xml_unescape(rest),
{
    reveal_strlit("&amp;");
    reveal_strlit("&lt;");
    reveal_strlit("&gt;");
    reveal_strlit("&quot;");
    reveal_strlit("&apos;");
    let t = e + rest;
    assert(t.len() > 0);
    assert(t.skip(e.len() as int) =~= rest);
    assert(t.take(e.len() as int) =~= e);
    assert(t[0] == e[0]);
    if e.len() > 1 {
        assert(t[1] == e[1]);
        if e.len() > 2 {
            assert(t[2] == e[2]);
        }
    }
    if e != seq![c] {
        assert(c == '&' || c == '<' || c == '>' || c == '"' || c == '\'');
    }
}

/// What escaping writes reads back: the predefined entities of escaped text,
/// read as the characters they stand for, give the text that was escaped.
pub proof fn law_xml_escape_reads_back(s: Seq<char>)
    ensures
        xml_unescape(xml_escape(s)) == s,
    decreases s.len(),
{
    if s.len() > 0 {
        let c = s[0];
        let rest = s.skip(1);
        assert(s =~= seq![c] + rest);
        lemma_xml_escape_front(c, rest);
        law_xml_escape_reads_back(rest);
        reveal_strlit("&amp;");
        assert("&amp;"@.len() == 5);
        lemma_unescape_front(xml_entity(c), c, xml_escape(rest));
    }
}

/// The same holds of markup escaping, in text and in quoted attribute values.
pub proof fn law_markup_escape_reads_back(s: Seq<char>, quote: bool)
    ensures
        xml_unescape(markup_escape(s, quote)) == s,
    decreases s.len(),
{
    if s.len() > 0 {
        let c = s[0];
        let rest = s.skip(1);
        assert(s =~= seq![c] + rest);
        lemma_markup_escape_front(c, rest, quote);
        law_markup_escape_reads_back(rest, quote);
        reveal_strlit("&amp;");
        assert("&amp;"@.len() == 5);
        lemma_unescape_front(markup_entity(c, quote), c, markup_escape(rest, quote));
    }
}
} // verus!
