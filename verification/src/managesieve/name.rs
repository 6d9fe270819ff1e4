//! Encoding of ManageSieve string arguments (RFC 5804 quoted strings and literals).

use vstd::prelude::*;
use vstd::utf8::{encode_scalar, encode_utf8};
use crate::managesieve::response::{
    digits_end, digits_value, is_digit, literal_marker, logical_line, newline_at, quoted, strip_eol, TokenV,
};
use crate::text::{digit_char, utf8_lossy};
use crate::text::{chars_of, decimal, decimal_string, push_char};

verus! {

/// A byte that may stand inside a quoted string.
pub open spec fn quotable_byte(b: u8) -> bool {
    b != 13 && b != 10 && b != 0 && (b == 9 || (0x20 <= b && b <= 0x7e))
}

/// Bytes that may be sent as a quoted string: at most 1024 of them, each quotable.
pub open spec fn quotable(b: Seq<u8>) -> bool {
    b.len() <= 1024 && forall|i: int| 0 <= i < b.len() ==> quotable_byte(#[trigger] b[i])
}

/// The escape of one character inside a quoted string.
pub open spec fn quote_escape_char(c: char) -> Seq<char> {
    if c == '"' || c == '\\' {
        seq!['\\', c]
    } else {
        seq![c]
    }
}

/// The body of a quoted string: `"` and `\` are preceded by a backslash.
pub open spec fn quote_escape(s: Seq<char>) -> Seq<char>
    decreases s.len(),
{
    if s.len() == 0 {
        Seq::empty()
    } else {
        quote_escape(s.drop_last()) + quote_escape_char(s.last())
    }
}

/// The wire form of an argument: a quoted string where the bytes allow it,
/// else a non-synchronising literal `{n+}\r\n` followed by the raw text.
pub open spec fn encoded_argument(s: Seq<char>) -> Seq<char> {
    let b = encode_utf8(s);
    if quotable(b) {
        seq!['"'] + quote_escape(s) + seq!['"']
    } else {
        seq!['{'] + decimal(b.len()) + seq!['+', '}', '\r', '\n'] + s
    }
}

/// Appends the encoded argument `s` to `out`.
pub fn encode_argument(s: &str, out: &mut String)
    ensures
        final(out)@ == old(out)@ + encoded_argument(s@),
{
    let bytes = s.as_bytes();
    if can_be_quoted(bytes) {
        let ghost start = out@;
        push_char(out, '"');
        let chars = chars_of(s);
        let mut i: usize = 0;
        while i < chars.len()
            invariant
                chars@ == s@,
                i <= chars@.len(),
                out@ == start + seq!['"'] + quote_escape(s@.take(i as int)),
            decreases chars.len() - i,
        {
            let ch = chars[i];
            if ch == '"' || ch == '\\' {
                push_char(out, '\\');
            }
            push_char(out, ch);
            i += 1;
            assert(s@.take(i as int).drop_last() =~= s@.take(i - 1));
        }
        assert(s@.take(i as int) =~= s@);
        push_char(out, '"');
    } else {
        push_char(out, '{');
        let n = decimal_string(bytes.len() as u64);
        out.append(n.as_str());
        out.append("+}\r\n");
        proof {
            reveal_strlit("+}\r\n");
        }
        out.append(s);
    }
}

/// Whether `bytes` may be sent as a quoted string.
pub fn can_be_quoted(bytes: &[u8]) -> (r: bool)
    ensures
        r == quotable(bytes@),
{
    if bytes.len() > 1024 {
        return false;
    }
    let mut i: usize = 0;
    while i < bytes.len()
        invariant
            i <= bytes@.len(),
            forall|j: int| 0 <= j < i ==> quotable_byte(#[trigger] bytes@[j]),
        decreases bytes.len() - i,
    {
        let b = bytes[i];
        if !(b != 13 && b != 10 && b != 0 && (b == 9 || (0x20 <= b && b <= 0x7e))) {
            assert(!quotable_byte(bytes@[i as int]));
            return false;
        }
        i += 1;
    }
    true
}

/// Whether a command line carries a literal (an opening brace).
pub fn contains_literal(bytes: &[u8]) -> (r: bool)
    ensures
        r == bytes@.contains(123u8),
{
    let mut i: usize = 0;
    while i < bytes.len()
        invariant
            i <= bytes@.len(),
            forall|j: int| 0 <= j < i ==> bytes@[j] != 123u8,
        decreases bytes.len() - i,
    {
        if bytes[i] == 123u8 {
            assert(bytes@[i as int] == 123u8);
            return true;
        }
        i += 1;
    }
    false
}


// ---------------------------------------------------------------------------
// Reading a quoted argument back

/// The bytes with a backslash before each `"` and `\`.
pub open spec fn byte_escape(b: Seq<u8>) -> Seq<u8>
    decreases b.len(),
{
    if b.len() == 0 {
        Seq::empty()
    } else {
        (if b[0] == 34 || b[0] == 92 { seq![92u8, b[0]] } else { seq![b[0]] }) + byte_escape(b.drop_first())
    }
}

proof fn lemma_byte_escape_concat(x: Seq<u8>, y: Seq<u8>)
    ensures
        byte_escape(x + y) == byte_escape(x) + byte_escape(y),
    decreases x.len(),
{
    if x.len() == 0 {
        assert(x + y =~= y);
        assert(byte_escape(x) + byte_escape(y) =~= byte_escape(y));
    } else {
        lemma_byte_escape_concat(x.drop_first(), y);
        assert((x + y).drop_first() =~= x.drop_first() + y);
        assert((x + y)[0] == x[0]);
        let h = if x[0] == 34 || x[0] == 92 { seq![92u8, x[0]] } else { seq![x[0]] };
        assert(h + (byte_escape(x.drop_first()) + byte_escape(y)) =~= (h + byte_escape(x.drop_first())) + byte_escape(y));
    }
}

proof fn lemma_byte_escape_plain(b: Seq<u8>)
    requires
        forall|i: int| 0 <= i < b.len() ==> b[i] >= 0x80,
    ensures
        byte_escape(b) == b,
    decreases b.len(),
{
    if b.len() > 0 {
        lemma_byte_escape_plain(b.drop_first());
        assert(seq![b[0]] + b.drop_first() =~= b);
    }
}

proof fn lemma_encode_concat(x: Seq<char>, y: Seq<char>)
    ensures
        encode_utf8(x + y) == encode_utf8(x) + encode_utf8(y),
    decreases x.len(),
{
    if x.len() == 0 {
        assert(x + y =~= y);
        assert(encode_utf8(x) + encode_utf8(y) =~= encode_utf8(y));
    } else {
        lemma_encode_concat(x.drop_first(), y);
        assert((x + y).drop_first() =~= x.drop_first() + y);
        assert((x + y)[0] == x[0]);
        let h = encode_scalar(x[0] as u32);
        assert(h + (encode_utf8(x.drop_first()) + encode_utf8(y)) =~= (h + encode_utf8(x.drop_first())) + encode_utf8(y));
    }
}

proof fn lemma_quote_escape_concat(x: Seq<char>, y: Seq<char>)
    ensures
        quote_escape(x + y) == quote_escape(x) + quote_escape(y),
    decreases y.len(),
{
    if y.len() == 0 {
        assert(x + y =~= x);
        assert(quote_escape(x) + quote_escape(y) =~= quote_escape(x));
    } else {
        lemma_quote_escape_concat(x, y.drop_last());
        assert((x + y).drop_last() =~= x + y.drop_last());
        assert((x + y).last() == y.last());
        let t = quote_escape_char(y.last());
        assert((quote_escape(x) + quote_escape(y.drop_last())) + t =~= quote_escape(x) + (quote_escape(y.drop_last()) + t));
    }
}

/// A character below 0x80 is its own byte; the bytes of any other are all
/// 0x80 or more.
proof fn lemma_scalar_bytes(c: char)
    ensures
        (c as u32) < 0x80 ==> encode_scalar(c as u32) == seq![(c as u32) as u8] && ((c as u32) as u8) as u32 == c as u32,
        (c as u32) >= 0x80 ==> forall|i: int| 0 <= i < encode_scalar(c as u32).len() ==> #[trigger] encode_scalar(c as u32)[i] >= 0x80,
{
    let v = c as u32;
    vstd::utf8::char_is_scalar(c);
    if v < 0x80 {
        assert(((v & 0x7F) as u8) == (v as u8) && (v as u8) as u32 == v) by (bit_vector)
            requires
                v < 0x80,
        ;
    } else {
        assert(vstd::utf8::leading_byte_width_2(v) >= 0x80 && vstd::utf8::leading_byte_width_3(v) >= 0x80
            && vstd::utf8::leading_byte_width_4(v) >= 0x80 && vstd::utf8::last_continuation_byte(v) >= 0x80
            && vstd::utf8::second_last_continuation_byte(v) >= 0x80
            && vstd::utf8::third_last_continuation_byte(v) >= 0x80) by (bit_vector);
    }
}

/// Escaping the characters and escaping their bytes agree.
proof fn lemma_escape_bytes(s: Seq<char>)
    ensures
        encode_utf8(quote_escape(s)) == byte_escape(encode_utf8(s)),
    decreases s.len(),
{
    if s.len() > 0 {
        let c = s[0];
        let r = s.drop_first();
        lemma_escape_bytes(r);
        assert(seq![c] + r =~= s);
        lemma_quote_escape_concat(seq![c], r);
        assert(quote_escape(seq![c]) == quote_escape_char(c)) by {
            assert(seq![c].drop_last() =~= Seq::<char>::empty());
            assert(quote_escape(Seq::<char>::empty()) =~= Seq::<char>::empty());
            assert(Seq::<char>::empty() + quote_escape_char(c) =~= quote_escape_char(c));
        }
        lemma_encode_concat(quote_escape_char(c), quote_escape(r));
        let e = encode_scalar(c as u32);
        assert(encode_utf8(s) == e + encode_utf8(r));
        lemma_byte_escape_concat(e, encode_utf8(r));
        lemma_scalar_bytes(c);
        assert(encode_utf8(Seq::<char>::empty()) =~= Seq::<u8>::empty());
        assert(('"' as u32) == 34 && ('\\' as u32) == 92);
        assert(encode_utf8(quote_escape_char(c)) == byte_escape(e)) by {
            if c == '"' || c == '\\' {
                lemma_scalar_bytes('\\');
                assert((c as u32) < 0x80);
                assert(e == seq![(c as u32) as u8]);
                assert(seq![c].drop_first() =~= Seq::<char>::empty());
                assert(encode_utf8(seq![c]) =~= e);
                assert(seq!['\\', c].drop_first() =~= seq![c]);
                assert(encode_scalar('\\' as u32) =~= seq![92u8]);
                assert(encode_utf8(seq!['\\', c]) =~= seq![92u8] + e);
                assert(e.drop_first() =~= Seq::<u8>::empty());
                assert(byte_escape(Seq::<u8>::empty()) =~= Seq::<u8>::empty());
                assert(e[0] == 34 || e[0] == 92);
                assert(byte_escape(e) =~= seq![92u8, e[0]] + byte_escape(e.drop_first()));
                assert(byte_escape(e) =~= seq![92u8] + e);
            } else if (c as u32) < 0x80 {
                assert(seq![c].drop_first() =~= Seq::<char>::empty());
                assert(encode_utf8(seq![c]) =~= e);
                assert(e.drop_first() =~= Seq::<u8>::empty());
                assert(e[0] as u32 == c as u32);
                if (c as u32) == 34 {
                    vstd::utf8::char_u32_cast(c, 34);
                    vstd::utf8::char_u32_cast('"', 34);
                }
                if (c as u32) == 92 {
                    vstd::utf8::char_u32_cast(c, 92);
                    vstd::utf8::char_u32_cast('\\', 92);
                }
                assert(e[0] != 34 && e[0] != 92);
                assert(byte_escape(Seq::<u8>::empty()) =~= Seq::<u8>::empty());
                assert(byte_escape(e) =~= seq![e[0]] + byte_escape(e.drop_first()));
                assert(byte_escape(e) =~= e);
            } else {
                assert(seq![c].drop_first() =~= Seq::<char>::empty());
                assert(encode_utf8(seq![c]) =~= e);
                lemma_byte_escape_plain(e);
            }
        }
    }
}

/// Reading an escaped body up to its closing quote gives back the bytes.
proof fn lemma_quoted_reads_escaped(pre: Seq<u8>, b: Seq<u8>, rest: Seq<u8>, acc: Seq<u8>)
    ensures
        quoted(pre + byte_escape(b) + seq![34u8] + rest, pre.len() as int, acc)
            == Some((acc + b, (pre.len() + byte_escape(b).len() + 1) as int)),
    decreases b.len(),
{
    let l = pre + byte_escape(b) + seq![34u8] + rest;
    let i = pre.len() as int;
    if b.len() == 0 {
        assert(l[i] == 34);
        assert(acc + b =~= acc);
    } else {
        let c = b[0];
        let b1 = b.drop_first();
        if c == 34 || c == 92 {
            let pre1 = pre + seq![92u8, c];
            assert(l =~= pre1 + byte_escape(b1) + seq![34u8] + rest);
            assert(l[i] == 92 && l[i + 1] == c);
            lemma_quoted_reads_escaped(pre1, b1, rest, acc.push(c));
            assert(acc.push(c) + b1 =~= acc + b);
        } else {
            let pre1 = pre + seq![c];
            assert(l =~= pre1 + byte_escape(b1) + seq![34u8] + rest);
            assert(l[i] == c);
            lemma_quoted_reads_escaped(pre1, b1, rest, acc.push(c));
            assert(acc.push(c) + b1 =~= acc + b);
        }
    }
}

/// An argument that goes out as a quoted string reads back as itself: the
/// wire form starts with a quote, and reading the quoted string after it
/// gives exactly the argument's UTF-8 bytes and ends after the wire form,
/// whatever follows it.
pub proof fn law_quoted_argument_reads_back(s: Seq<char>, rest: Seq<u8>)
    requires
        quotable(encode_utf8(s)),
    ensures
        encode_utf8(encoded_argument(s))[0] == 34,
        quoted(encode_utf8(encoded_argument(s)) + rest, 1, Seq::empty())
            == Some((encode_utf8(s), encode_utf8(encoded_argument(s)).len() as int)),
{
    let q = seq!['"'];
    lemma_encode_concat(q + quote_escape(s), q);
    lemma_encode_concat(q, quote_escape(s));
    lemma_scalar_bytes('"');
    assert(('"' as u32) == 34);
    assert(encode_utf8(Seq::<char>::empty()) =~= Seq::<u8>::empty());
    assert(q.drop_first() =~= Seq::<char>::empty());
    assert(encode_utf8(q) =~= seq![34u8]);
    lemma_escape_bytes(s);
    let b = encode_utf8(s);
    let w = encode_utf8(encoded_argument(s));
    assert(w == seq![34u8] + byte_escape(b) + seq![34u8]);
    lemma_quoted_reads_escaped(seq![34u8], b, rest, Seq::empty());
    assert(Seq::<u8>::empty() + b =~= b);
}


// ---------------------------------------------------------------------------
// Reading an argument line back

/// The token that the argument `s` reads back as.
pub open spec fn argument_token(s: Seq<char>) -> TokenV {
    if quotable(encode_utf8(s)) {
        TokenV::QStr(utf8_lossy(encode_utf8(s)))
    } else {
        TokenV::Literal(encode_utf8(s))
    }
}

proof fn lemma_digit_byte(d: nat)
    requires
        d < 10,
    ensures
        encode_utf8(seq![digit_char(d)]) == seq![(d + 48) as u8],
{
    let c = digit_char(d);
    assert((c as u32) == d + 48);
    lemma_scalar_bytes(c);
    assert(seq![c].drop_first() =~= Seq::<char>::empty());
    assert(encode_utf8(Seq::<char>::empty()) =~= Seq::<u8>::empty());
    assert(encode_utf8(seq![c]) =~= encode_scalar(c as u32));
}

/// The bytes of a decimal numeral are digits, and read back as its value.
proof fn lemma_decimal_bytes(n: nat, l: Seq<u8>, st: int)
    requires
        0 <= st,
        st + encode_utf8(crate::text::decimal(n)).len() <= l.len(),
        l.subrange(st, st + encode_utf8(crate::text::decimal(n)).len()) == encode_utf8(crate::text::decimal(n)),
    ensures
        encode_utf8(crate::text::decimal(n)).len() >= 1,
        forall|i: int| st <= i < st + encode_utf8(crate::text::decimal(n)).len() ==> is_digit(#[trigger] l[i]),
        digits_value(l, st, st + encode_utf8(crate::text::decimal(n)).len()) == n,
    decreases n,
{
    let d = crate::text::decimal(n);
    let b = encode_utf8(d);
    let end = st + b.len();
    if n < 10 {
        lemma_digit_byte(n);
        assert(b == seq![(n + 48) as u8]);
        assert(l[st] == b[0]);
        assert(digits_value(l, st, st) == 0);
    } else {
        let h = crate::text::decimal(n / 10);
        lemma_digit_byte(n % 10);
        assert(d == h.push(digit_char(n % 10)));
        assert(h.push(digit_char(n % 10)) =~= h + seq![digit_char(n % 10)]);
        lemma_encode_concat(h, seq![digit_char(n % 10)]);
        let hb = encode_utf8(h);
        assert(b == hb + seq![((n % 10) + 48) as u8]);
        assert(l.subrange(st, st + hb.len()) =~= hb) by {
            assert forall|i: int| 0 <= i < hb.len() implies l.subrange(st, st + hb.len())[i] == hb[i] by {
                assert(l.subrange(st, end)[i] == b[i]);
            }
        }
        lemma_decimal_bytes(n / 10, l, st);
        assert(l[end - 1] == b[b.len() - 1]) by {
            assert(l.subrange(st, end)[b.len() - 1] == b[b.len() - 1]);
        }
        assert forall|i: int| st <= i < end implies is_digit(#[trigger] l[i]) by {
            if i < end - 1 {
            } else {
                assert(l[i] == ((n % 10) + 48) as u8);
            }
        }
        assert(digits_value(l, st, end) == digits_value(l, st, end - 1) * 10 + (l[end - 1] - 48) as nat);
    }
}

proof fn lemma_strip_crlf(x: Seq<u8>)
    requires
        x.len() > 0 ==> x.last() != 10 && x.last() != 13,
    ensures
        strip_eol(x + seq![13u8, 10u8]) == x,
{
    let y = x + seq![13u8, 10u8];
    assert(y.drop_last() =~= x.push(13u8));
    assert(x.push(13u8).drop_last() =~= x);
    assert(y.len() > 0 && y.last() == 10);
    assert(strip_eol(y) == strip_eol(x.push(13u8)));
    assert(x.push(13u8).last() == 13);
    assert(strip_eol(x.push(13u8)) == strip_eol(x));
    assert(strip_eol(x) == x);
}

/// A character below 0x80 is encoded as its own byte.
proof fn lemma_ascii_char(c: char)
    requires
        (c as u32) < 0x80,
    ensures
        encode_utf8(seq![c]) == seq![(c as u32) as u8],
{
    lemma_scalar_bytes(c);
    assert(seq![c].drop_first() =~= Seq::<char>::empty());
    assert(encode_utf8(Seq::<char>::empty()) =~= Seq::<u8>::empty());
    assert(encode_utf8(seq![c]) =~= encode_scalar(c as u32));
}

/// The first line feed from `pos` is at `k` when the bytes before it are
/// not line feeds.
proof fn lemma_first_newline(s: Seq<u8>, pos: int, k: int)
    requires
        0 <= pos <= k < s.len(),
        s[k] == 10,
        forall|i: int| pos <= i < k ==> s[i] != 10,
    ensures
        newline_at(s, pos) == k,
{
    crate::managesieve::response::lemma_newline_at(s, pos);
    let f = newline_at(s, pos);
    if f < k {
        assert(s[f] == 10);
    } else if f > k {
        assert(s[k] != 10);
    }
}

/// An argument line reads back as the argument: the reader takes the wire
/// form of `s` followed by CRLF as one logical line holding one token (the
/// quoted string, or the literal of exactly `s`'s UTF-8 bytes) and ends
/// after it.
pub proof fn law_argument_line_reads_back(s: Seq<char>)
    requires
        encode_utf8(s).len() <= usize::MAX,
    ensures
        logical_line(encode_utf8(encoded_argument(s)) + seq![13u8, 10u8], 0, Seq::empty())
            == Ok::<(Seq<TokenV>, int), crate::managesieve::response::ReadFailure>((seq![argument_token(s)], (encode_utf8(encoded_argument(s)).len() + 2) as int)),
{
    let b = encode_utf8(s);
    let w = encode_utf8(encoded_argument(s));
    let l = w + seq![13u8, 10u8];
    if quotable(b) {
        law_quoted_argument_reads_back(s, Seq::empty());
        assert(w + Seq::<u8>::empty() =~= w);
        let q = seq!['"'];
        lemma_encode_concat(q + quote_escape(s), q);
        lemma_encode_concat(q, quote_escape(s));
        lemma_scalar_bytes('"');
        assert(('"' as u32) == 34);
        assert(encode_utf8(Seq::<char>::empty()) =~= Seq::<u8>::empty());
        assert(q.drop_first() =~= Seq::<char>::empty());
        assert(encode_utf8(q) =~= seq![34u8]);
        lemma_escape_bytes(s);
        assert(w == seq![34u8] + byte_escape(b) + seq![34u8]);
        assert forall|i: int| 0 <= i < w.len() implies w[i] != 10 && w[i] != 13 by {
            lemma_escaped_no_line_end(b);
            if 0 < i < w.len() - 1 {
                assert(w[i] == byte_escape(b)[i - 1]);
            }
        }
        lemma_first_newline(l, 0, w.len() + 1 as int);
        lemma_strip_crlf(w);
        assert(l.subrange(0, w.len() + 2 as int) =~= l);
        let line = w;
        assert(crate::managesieve::response::skip_blanks(line, 0) == 0);
        assert(crate::managesieve::response::skip_blanks(line, line.len() as int) == line.len());
        let toks = seq![TokenV::QStr(utf8_lossy(b))];
        assert(crate::managesieve::response::physical_line(l, 0) == Some((line, l.len() as int)));
        assert(Seq::<TokenV>::empty().push(TokenV::QStr(utf8_lossy(b))) =~= toks);
        assert(crate::managesieve::response::scan_line(line, line.len() as int, toks)
            == crate::managesieve::response::LineScan::Done(toks));
        assert(crate::managesieve::response::scan_line(line, 0, Seq::empty())
            == crate::managesieve::response::LineScan::Done(toks));
    } else {
        let n = b.len();
        let d = encode_utf8(crate::text::decimal(n));
        let tail = seq!['+', '}', '\r', '\n'];
        let head = seq!['{'];
        lemma_encode_concat(head + crate::text::decimal(n) + tail, s);
        lemma_encode_concat(head + crate::text::decimal(n), tail);
        lemma_encode_concat(head, crate::text::decimal(n));
        assert(encode_utf8(Seq::<char>::empty()) =~= Seq::<u8>::empty());
        assert(('{' as u32) == 123 && ('+' as u32) == 43 && ('}' as u32) == 125 && ('\r' as u32) == 13 && ('\n' as u32) == 10);
        lemma_scalar_bytes('{');
        lemma_scalar_bytes('+');
        lemma_scalar_bytes('}');
        lemma_scalar_bytes('\r');
        lemma_scalar_bytes('\n');
        assert(head.drop_first() =~= Seq::<char>::empty());
        assert(encode_utf8(head) =~= seq![123u8]);
        lemma_ascii_char('+');
        lemma_ascii_char('}');
        lemma_ascii_char('\r');
        lemma_ascii_char('\n');
        assert(tail =~= seq!['+'] + (seq!['}'] + (seq!['\r'] + seq!['\n'])));
        lemma_encode_concat(seq!['\r'], seq!['\n']);
        lemma_encode_concat(seq!['}'], seq!['\r'] + seq!['\n']);
        lemma_encode_concat(seq!['+'], seq!['}'] + (seq!['\r'] + seq!['\n']));
        assert(encode_utf8(tail) =~= seq![43u8, 125u8, 13u8, 10u8]);
        let marker = seq![123u8] + d + seq![43u8, 125u8, 13u8, 10u8];
        assert(w == marker + b);
        let m = d.len() as int;
        // the marker line
        assert(l.subrange(1, 1 + m) =~= d);
        lemma_decimal_bytes(n, l, 1);
        assert(forall|i: int| 0 <= i < m + 4 ==> l[i] != 10) by {
            assert forall|i: int| 0 <= i < m + 4 implies l[i] != 10 by {
                if 1 <= i < 1 + m {
                    assert(is_digit(l[i]));
                }
            }
        }
        assert(l[m + 4] == 10);
        lemma_first_newline(l, 0, m + 4);
        let next = m + 5;
        let line = seq![123u8] + d + seq![43u8, 125u8];
        assert(l.subrange(0, next) =~= line + seq![13u8, 10u8]);
        lemma_strip_crlf(line);
        assert(line.subrange(1, 1 + m) =~= d);
        lemma_decimal_bytes(n, line, 1);
        crate::managesieve::response::lemma_digits_end(line, 1);
        assert(digits_end(line, 1) == 1 + m) by {
            let e = digits_end(line, 1);
            if e < 1 + m {
                assert(is_digit(line[e]));
            } else if e > 1 + m {
                assert(is_digit(line[1 + m]));
            }
        }
        assert(literal_marker(line, 1) == Ok::<(nat, int), crate::managesieve::response::ReadFailure>((n, m + 3)));
        assert(crate::managesieve::response::skip_blanks(line, 0) == 0);
        assert(crate::managesieve::response::all_blank(line, m + 3));
        // the literal's bytes, then the line end after them
        assert(l.subrange(next, next + n) =~= b);
        let pos2 = next + n;
        assert(l[pos2] == 13 && l[pos2 + 1] == 10);
        lemma_first_newline(l, pos2, pos2 + 1);
        assert(l.subrange(pos2, pos2 + 2) =~= seq![13u8, 10u8]);
        lemma_strip_crlf(Seq::<u8>::empty());
        assert(Seq::<u8>::empty() + seq![13u8, 10u8] =~= seq![13u8, 10u8]);
        assert(crate::managesieve::response::skip_blanks(Seq::<u8>::empty(), 0) == 0);
        let toks = seq![TokenV::Literal(b)];
        assert(crate::managesieve::response::physical_line(l, 0) == Some((line, next)));
        assert(crate::managesieve::response::scan_line(line, 0, Seq::empty())
            == crate::managesieve::response::LineScan::Literal(Seq::empty(), n));
        assert(Seq::<TokenV>::empty().push(TokenV::Literal(l.subrange(next, next + n))) =~= toks);
        assert(crate::managesieve::response::physical_line(l, pos2) == Some((Seq::<u8>::empty(), l.len() as int)));
        assert(crate::managesieve::response::scan_line(Seq::<u8>::empty(), 0, toks)
            == crate::managesieve::response::LineScan::Done(toks));
        assert(logical_line(l, pos2, toks) == Ok::<(Seq<TokenV>, int), crate::managesieve::response::ReadFailure>((toks, l.len() as int)));
    }
}

proof fn lemma_escaped_no_line_end(b: Seq<u8>)
    requires
        forall|i: int| 0 <= i < b.len() ==> b[i] != 10 && b[i] != 13,
    ensures
        forall|i: int| 0 <= i < byte_escape(b).len() ==> byte_escape(b)[i] != 10 && byte_escape(b)[i] != 13,
    decreases b.len(),
{
    if b.len() > 0 {
        lemma_escaped_no_line_end(b.drop_first());
        let h = if b[0] == 34 || b[0] == 92 { seq![92u8, b[0]] } else { seq![b[0]] };
        let r = byte_escape(b.drop_first());
        assert forall|i: int| 0 <= i < (h + r).len() implies (h + r)[i] != 10 && (h + r)[i] != 13 by {
            if i >= h.len() {
                assert((h + r)[i] == r[i - h.len()]);
            }
        }
    }
}

} // verus!
