//! ManageSieve responses: tokenising the wire format and reading status lines,
//! script listings, script bodies and capabilities.

use vstd::prelude::*;
use vstd::utf8::encode_utf8;
use crate::managesieve::error::{NoError, SieveError};
use crate::text::{debug_string, debug_text, ascii_space, ascii_words, word_state, eq_ignore_case, lossy_string, str_eq, str_eq_ignore_case, to_upper, upper_seq, utf8_lossy};

verus! {

#[derive(Debug, Clone)]
pub enum Token {
    Atom(String),
    QStr(String),
    Literal(Vec<u8>),
    LParen,
    RParen,
}

/// The abstract value of a token.
pub enum TokenV {
    Atom(Seq<char>),
    QStr(Seq<char>),
    Literal(Seq<u8>),
    LParen,
    RParen,
}

impl View for Token {
    type V = TokenV;

    open spec fn view(&self) -> TokenV {
        match self {
            Token::Atom(s) => TokenV::Atom(s@),
            Token::QStr(s) => TokenV::QStr(s@),
            Token::Literal(b) => TokenV::Literal(b@),
            Token::LParen => TokenV::LParen,
            Token::RParen => TokenV::RParen,
        }
    }
}

pub open spec fn tokens_view(s: Seq<Token>) -> Seq<TokenV> {
    s.map_values(|t: Token| t@)
}

pub open spec fn lines_view(s: Seq<Vec<Token>>) -> Seq<Seq<TokenV>> {
    s.map_values(|l: Vec<Token>| tokens_view(l@))
}

/// The text a token stands for: strings and atoms as they are, a literal
/// decoded as UTF-8 (lossily); parentheses stand for no text.
pub open spec fn token_text(t: TokenV) -> Option<Seq<char>> {
    match t {
        TokenV::QStr(s) => Some(s),
        TokenV::Literal(b) => Some(utf8_lossy(b)),
        TokenV::Atom(s) => Some(s),
        _ => None,
    }
}

/// The bytes a string token carries.
pub open spec fn token_bytes(t: TokenV) -> Option<Seq<u8>> {
    match t {
        TokenV::QStr(s) => Some(encode_utf8(s)),
        TokenV::Literal(b) => Some(b),
        _ => None,
    }
}

/// An exact copy of a token.
pub fn copy_token(t: &Token) -> (r: Token)
    ensures
        r@ == t@,
{
    match t {
        Token::Atom(s) => Token::Atom(s.clone()),
        Token::QStr(s) => Token::QStr(s.clone()),
        Token::Literal(b) => Token::Literal(vstd::slice::slice_to_vec(b.as_slice())),
        Token::LParen => Token::LParen,
        Token::RParen => Token::RParen,
    }
}

impl Token {
    pub fn as_string_bytes(&self) -> (r: Option<Vec<u8>>)
        ensures
            match r {
                Some(v) => token_bytes(self@) == Some(v@),
                None => token_bytes(self@) is None,
            },
    {
        match self {
            Token::QStr(s) => Some(vstd::slice::slice_to_vec(s.as_str().as_bytes())),
            Token::Literal(b) => Some(vstd::slice::slice_to_vec(b.as_slice())),
            _ => None,
        }
    }

    pub fn as_string(&self) -> (r: Option<String>)
        ensures
            match r {
                Some(s) => token_text(self@) == Some(s@),
                None => token_text(self@) is None,
            },
    {
        match self {
            Token::QStr(s) => Some(s.clone()),
            Token::Literal(b) => Some(lossy_string(b.as_slice())),
            Token::Atom(s) => Some(s.clone()),
            _ => None,
        }
    }
}

#[derive(Debug, Clone, Copy, PartialEq, Eq, Structural)]
pub enum Status {
    Okay,
    No,
    Bye,
}

#[derive(Debug, Clone)]
pub struct StatusLine {
    pub status: Status,
    pub code: Option<String>,
    pub code_args: Option<String>,
    pub text: String,
}

pub struct StatusLineV {
    pub status: Status,
    pub code: Option<Seq<char>>,
    pub code_args: Option<Seq<char>>,
    pub text: Seq<char>,
}

pub open spec fn opt_string_view(o: Option<String>) -> Option<Seq<char>> {
    match o {
        Some(s) => Some(s@),
        None => None,
    }
}

impl View for StatusLine {
    type V = StatusLineV;

    open spec fn view(&self) -> StatusLineV {
        StatusLineV {
            status: self.status,
            code: opt_string_view(self.code),
            code_args: opt_string_view(self.code_args),
            text: self.text@,
        }
    }
}

impl StatusLine {
    pub fn default() -> (r: StatusLine)
        ensures
            r@ == (StatusLineV { status: Status::Okay, code: None, code_args: None, text: Seq::empty() }),
    {
        StatusLine { status: Status::Okay, code: None, code_args: None, text: String::new() }
    }

    pub fn into_no_error(self) -> (r: NoError)
        ensures
            r.text@ == self.text@,
            r.code == self.code,
    {
        NoError { text: self.text, code: self.code }
    }
}

/// The status word of a response line, in any of its three spellings.
pub open spec fn status_word(s: Seq<char>) -> Option<Status> {
    if s == "OK"@ || s == "ok"@ || s == "Ok"@ {
        Some(Status::Okay)
    } else if s == "NO"@ || s == "no"@ || s == "No"@ {
        Some(Status::No)
    } else if s == "BYE"@ || s == "bye"@ || s == "Bye"@ {
        Some(Status::Bye)
    } else {
        None
    }
}

/// The tokens inside a parenthesised response code, collected from `idx` on at
/// nesting depth `depth`: nested parentheses are kept, the closing one of the
/// group is dropped. Yields the collected tokens and the index after the group.
pub open spec fn paren_group(t: Seq<TokenV>, idx: int, depth: int, inside: Seq<TokenV>) -> (Seq<TokenV>, int)
    decreases t.len() - idx,
{
    if idx < 0 || idx >= t.len() || depth <= 0 {
        (inside, idx)
    } else {
        match t[idx] {
            TokenV::LParen => paren_group(t, idx + 1, depth + 1, inside.push(t[idx])),
            TokenV::RParen => if depth - 1 > 0 {
                paren_group(t, idx + 1, depth - 1, inside.push(t[idx]))
            } else {
                paren_group(t, idx + 1, depth - 1, inside)
            },
            _ => paren_group(t, idx + 1, depth, inside.push(t[idx])),
        }
    }
}

/// The response-code arguments: the texts of `inside[1..i]` joined by single
/// spaces, a space being written before every text but the one at index 1.
pub open spec fn code_args_text(inside: Seq<TokenV>, i: int) -> Seq<char>
    decreases i,
{
    if i <= 1 {
        Seq::empty()
    } else {
        let prev = code_args_text(inside, i - 1);
        match token_text(inside[i - 1]) {
            Some(s) => if i - 1 > 1 {
                prev + seq![' '] + s
            } else {
                prev + s
            },
            None => prev,
        }
    }
}

/// The status line that a line of tokens is, if it is one.
pub open spec fn spec_status_line(t: Seq<TokenV>) -> Option<StatusLineV> {
    if t.len() == 0 {
        None
    } else {
        match t[0] {
            TokenV::Atom(w) => match status_word(w) {
                None => None,
                Some(status) => {
                    let has_code = t.len() > 1 && t[1] is LParen;
                    let (inside, idx) = if has_code {
                        paren_group(t, 2, 1, Seq::empty())
                    } else {
                        (Seq::empty(), 1)
                    };
                    let code = if inside.len() > 0 {
                        token_text(inside[0])
                    } else {
                        None
                    };
                    let joined = code_args_text(inside, inside.len() as int);
                    let code_args = if inside.len() > 1 && joined.len() > 0 {
                        Some(joined)
                    } else {
                        None
                    };
                    let text = if 0 <= idx < t.len() {
                        match token_text(t[idx]) {
                            Some(s) => s,
                            None => Seq::empty(),
                        }
                    } else {
                        Seq::empty()
                    };
                    Some(StatusLineV { status, code, code_args, text })
                },
            },
            _ => None,
        }
    }
}

fn parse_status_word(s: &String) -> (r: Option<Status>)
    ensures
        r == status_word(s@),
{
    let w = s.as_str();
    if str_eq(w, "OK") || str_eq(w, "ok") || str_eq(w, "Ok") {
        Some(Status::Okay)
    } else if str_eq(w, "NO") || str_eq(w, "no") || str_eq(w, "No") {
        Some(Status::No)
    } else if str_eq(w, "BYE") || str_eq(w, "bye") || str_eq(w, "Bye") {
        Some(Status::Bye)
    } else {
        None
    }
}

/// Reads a status line (`OK`, `NO` or `BYE`, an optional parenthesised
/// response code and an optional text) from a line of tokens.
pub fn try_parse_status(tokens: &[Token]) -> (r: Option<StatusLine>)
    ensures
        match r {
            Some(l) => spec_status_line(tokens_view(tokens@)) == Some(l@),
            None => spec_status_line(tokens_view(tokens@)) is None,
        },
{
    let ghost tv = tokens_view(tokens@);
    if tokens.len() == 0 {
        return None;
    }
    let status = match &tokens[0] {
        Token::Atom(s) => match parse_status_word(s) {
            Some(st) => st,
            None => return None,
        },
        _ => return None,
    };
    let mut idx: usize = 1;
    let mut code: Option<String> = None;
    let mut code_args: Option<String> = None;
    let ghost mut inside_v: Seq<TokenV> = Seq::empty();
    if tokens.len() > 1 && matches!(tokens[1], Token::LParen) {
        idx = 2;
        let mut depth: u64 = 1;
        let mut inside: Vec<Token> = Vec::new();
        assert(tokens_view(inside@) =~= Seq::<TokenV>::empty());
        while idx < tokens.len() && depth > 0
            invariant
                tv == tokens_view(tokens@),
                2 <= idx <= tokens@.len(),
                depth <= idx,
                paren_group(tv, idx as int, depth as int, tokens_view(inside@)) == paren_group(tv, 2, 1, Seq::empty()),
            decreases tokens.len() - idx,
        {
            let ghost before = tokens_view(inside@);
            match &tokens[idx] {
                Token::LParen => {
                    depth += 1;
                    inside.push(Token::LParen);
                },
                Token::RParen => {
                    depth -= 1;
                    if depth > 0 {
                        inside.push(Token::RParen);
                    }
                },
                t => {
                    inside.push(copy_token(t));
                },
            }
            assert(tokens_view(inside@) =~= if (tv[idx as int] is RParen && depth == 0) { before } else { before.push(tv[idx as int]) });
            idx += 1;
        }
        proof {
            inside_v = tokens_view(inside@);
        }
        assert(paren_group(tv, idx as int, depth as int, inside_v) == (inside_v, idx as int));
        if inside.len() > 0 {
            code = inside[0].as_string();
            if inside.len() > 1 {
                let mut joined = String::new();
                let mut i: usize = 1;
                while i < inside.len()
                    invariant
                        inside_v == tokens_view(inside@),
                        1 <= i <= inside@.len(),
                        joined@ == code_args_text(inside_v, i as int),
                    decreases inside.len() - i,
                {
                    if let Some(s) = inside[i].as_string() {
                        if i > 1 {
                            crate::text::push_char(&mut joined, ' ');
                        }
                        joined.append(s.as_str());
                    }
                    i += 1;
                }
                if !joined.as_str().is_empty() {
                    code_args = Some(joined);
                }
            }
        }
    }
    let text = if idx < tokens.len() {
        match &tokens[idx] {
            Token::QStr(s) => s.clone(),
            Token::Literal(b) => lossy_string(b.as_slice()),
            Token::Atom(s) => s.clone(),
            _ => String::new(),
        }
    } else {
        String::new()
    };
    Some(StatusLine { status, code, code_args, text })
}

// ---------------------------------------------------------------------------
// The wire format, read from a buffer of received bytes.
// ---------------------------------------------------------------------------

/// Why a response could not be read.
pub enum ReadFailure {
    /// The input ended inside a line or a literal.
    Eof,
    Unterminated,
    SizeOverflow,
    MissingDigits,
    MissingBrace,
    /// A literal marker of size `n` followed by other text on its line.
    Trailing(nat, Seq<u8>),
}

/// The error value that reports a read failure.
pub open spec fn reports(e: SieveError, f: ReadFailure) -> bool {
    match f {
        ReadFailure::Eof => e is Io,
        ReadFailure::Unterminated => e matches SieveError::Parse(m) && m@ == "unterminated quoted-string"@,
        ReadFailure::SizeOverflow => e matches SieveError::Parse(m) && m@ == "literal size overflow"@,
        ReadFailure::MissingDigits => e matches SieveError::Parse(m) && m@ == "literal marker missing digits"@,
        ReadFailure::MissingBrace => e matches SieveError::Parse(m) && m@ == "literal marker missing closing brace"@,
        ReadFailure::Trailing(n, rest) => e matches SieveError::Parse(m) && m@ == "literal marker {"@ + crate::text::decimal(n)
            + "} not at end of line: trailing "@ + debug_text(utf8_lossy(rest)),
    }
}

pub open spec fn is_blank(b: u8) -> bool {
    b == 32 || b == 9
}

/// An atom ends at a blank, a quote, a brace or a parenthesis.
pub open spec fn ends_atom(b: u8) -> bool {
    is_blank(b) || b == 34 || b == 123 || b == 40 || b == 41
}

pub open spec fn is_digit(b: u8) -> bool {
    48 <= b <= 57
}

pub open spec fn skip_blanks(l: Seq<u8>, p: int) -> int
    decreases l.len() - p,
{
    if 0 <= p < l.len() && is_blank(l[p]) {
        skip_blanks(l, p + 1)
    } else {
        p
    }
}

pub open spec fn atom_end(l: Seq<u8>, p: int) -> int
    decreases l.len() - p,
{
    if 0 <= p < l.len() && !ends_atom(l[p]) {
        atom_end(l, p + 1)
    } else {
        p
    }
}

pub open spec fn digits_end(l: Seq<u8>, p: int) -> int
    decreases l.len() - p,
{
    if 0 <= p < l.len() && is_digit(l[p]) {
        digits_end(l, p + 1)
    } else {
        p
    }
}

/// The number written by the digits `l[start..end]`.
pub open spec fn digits_value(l: Seq<u8>, start: int, end: int) -> nat
    decreases end - start,
{
    if end <= start {
        0
    } else {
        digits_value(l, start, end - 1) * 10 + (l[end - 1] - 48) as nat
    }
}

/// A quoted string's bytes from `i` up to its closing quote, a backslash
/// taking the next byte literally; the index after the quote.
pub open spec fn quoted(l: Seq<u8>, i: int, acc: Seq<u8>) -> Option<(Seq<u8>, int)>
    decreases l.len() - i,
{
    if i < 0 || i >= l.len() {
        None
    } else if l[i] == 34 {
        Some((acc, i + 1))
    } else if l[i] == 92 && i + 1 < l.len() {
        quoted(l, i + 2, acc.push(l[i + 1]))
    } else {
        quoted(l, i + 1, acc.push(l[i]))
    }
}

/// A literal marker `{n}` or `{n+}` whose digits start at `start`: its size
/// and the index after the closing brace.
pub open spec fn literal_marker(l: Seq<u8>, start: int) -> Result<(nat, int), ReadFailure> {
    let e = digits_end(l, start);
    let n = digits_value(l, start, e);
    if e == start {
        Err(ReadFailure::MissingDigits)
    } else if n > usize::MAX {
        Err(ReadFailure::SizeOverflow)
    } else {
        let p = if e < l.len() && l[e] == 43 { e + 1 } else { e };
        if p >= l.len() || l[p] != 125 {
            Err(ReadFailure::MissingBrace)
        } else {
            Ok((n, p + 1))
        }
    }
}

pub open spec fn all_blank(l: Seq<u8>, p: int) -> bool {
    forall|i: int| p <= i < l.len() ==> is_blank(#[trigger] l[i])
}

/// The result of tokenising one physical line.
pub enum LineScan {
    /// The line ended; these are the tokens.
    Done(Seq<TokenV>),
    /// The line ended with a literal marker of this size.
    Literal(Seq<TokenV>, nat),
    Failed(ReadFailure),
}

/// Tokenises `l` from `p` on, after the tokens `toks`.
pub open spec fn scan_line(l: Seq<u8>, p: int, toks: Seq<TokenV>) -> LineScan
    decreases l.len() - p,
{
    let q = skip_blanks(l, p);
    if q < p || q >= l.len() {
        LineScan::Done(toks)
    } else if l[q] == 34 {
        match quoted(l, q + 1, Seq::empty()) {
            None => LineScan::Failed(ReadFailure::Unterminated),
            Some((b, np)) => if p < np <= l.len() {
                scan_line(l, np, toks.push(TokenV::QStr(utf8_lossy(b))))
            } else {
                LineScan::Done(toks)
            },
        }
    } else if l[q] == 123 {
        match literal_marker(l, q + 1) {
            Err(f) => LineScan::Failed(f),
            Ok((n, np)) => if all_blank(l, np) {
                LineScan::Literal(toks, n)
            } else {
                LineScan::Failed(ReadFailure::Trailing(n, l.subrange(np, l.len() as int)))
            },
        }
    } else if l[q] == 40 {
        scan_line(l, q + 1, toks.push(TokenV::LParen))
    } else if l[q] == 41 {
        scan_line(l, q + 1, toks.push(TokenV::RParen))
    } else {
        let e = atom_end(l, q);
        if p < e <= l.len() {
            scan_line(l, e, toks.push(TokenV::Atom(utf8_lossy(l.subrange(q, e)))))
        } else {
            LineScan::Done(toks)
        }
    }
}

/// The index of the first line feed at or after `pos`, or the length.
pub open spec fn newline_at(s: Seq<u8>, pos: int) -> int
    decreases s.len() - pos,
{
    if pos < 0 || pos >= s.len() {
        s.len() as int
    } else if s[pos] == 10 {
        pos
    } else {
        newline_at(s, pos + 1)
    }
}

/// A line without its trailing line feeds and carriage returns.
pub open spec fn strip_eol(s: Seq<u8>) -> Seq<u8>
    decreases s.len(),
{
    if s.len() > 0 && (s.last() == 10 || s.last() == 13) {
        strip_eol(s.drop_last())
    } else {
        s
    }
}

/// The physical line starting at `pos` and the index after its line feed;
/// none at the end of the input.
pub open spec fn physical_line(s: Seq<u8>, pos: int) -> Option<(Seq<u8>, int)> {
    if pos < 0 || pos >= s.len() {
        None
    } else {
        let k = newline_at(s, pos);
        let next = if k < s.len() { k + 1 } else { s.len() as int };
        Some((strip_eol(s.subrange(pos, next)), next))
    }
}

/// A logical line: physical lines joined by literals whose bytes follow the
/// line that announces them.
pub open spec fn logical_line(s: Seq<u8>, pos: int, toks: Seq<TokenV>) -> Result<(Seq<TokenV>, int), ReadFailure>
    decreases s.len() - pos,
{
    match physical_line(s, pos) {
        None => Err(ReadFailure::Eof),
        Some((line, next)) => match scan_line(line, 0, toks) {
            LineScan::Failed(f) => Err(f),
            LineScan::Done(t) => Ok((t, next)),
            LineScan::Literal(t, n) => if next <= pos || n > s.len() - next {
                Err(ReadFailure::Eof)
            } else {
                logical_line(s, next + n, t.push(TokenV::Literal(s.subrange(next, next + n))))
            },
        },
    }
}

/// A response: data lines up to the first status line, blank lines skipped.
pub open spec fn response_from(s: Seq<u8>, pos: int, data: Seq<Seq<TokenV>>) -> Result<(Seq<Seq<TokenV>>, StatusLineV, int), ReadFailure>
    decreases s.len() - pos,
{
    match logical_line(s, pos, Seq::empty()) {
        Err(f) => Err(f),
        Ok((line, next)) => if next <= pos || next > s.len() {
            Err(ReadFailure::Eof)
        } else if line.len() == 0 {
            response_from(s, next, data)
        } else {
            match spec_status_line(line) {
                Some(st) => Ok((data, st, next)),
                None => response_from(s, next, data.push(line)),
            }
        },
    }
}

proof fn lemma_skip_blanks(l: Seq<u8>, p: int)
    requires
        0 <= p <= l.len(),
    ensures
        p <= skip_blanks(l, p) <= l.len(),
        skip_blanks(l, p) < l.len() ==> !is_blank(l[skip_blanks(l, p)]),
    decreases l.len() - p,
{
    if p < l.len() && is_blank(l[p]) {
        lemma_skip_blanks(l, p + 1);
    }
}

proof fn lemma_atom_end(l: Seq<u8>, p: int)
    requires
        0 <= p <= l.len(),
    ensures
        p <= atom_end(l, p) <= l.len(),
        forall|i: int| p <= i < atom_end(l, p) ==> !ends_atom(#[trigger] l[i]),
        atom_end(l, p) < l.len() ==> ends_atom(l[atom_end(l, p)]),
    decreases l.len() - p,
{
    if p < l.len() && !ends_atom(l[p]) {
        lemma_atom_end(l, p + 1);
    }
}

proof fn lemma_quoted(l: Seq<u8>, i: int, acc: Seq<u8>)
    requires
        0 <= i,
    ensures
        quoted(l, i, acc) matches Some((b, np)) ==> i < np <= l.len(),
    decreases l.len() - i,
{
    if i < l.len() && l[i] != 34 {
        if l[i] == 92 && i + 1 < l.len() {
            lemma_quoted(l, i + 2, acc.push(l[i + 1]));
        } else {
            lemma_quoted(l, i + 1, acc.push(l[i]));
        }
    }
}

pub(crate) proof fn lemma_newline_at(s: Seq<u8>, pos: int)
    requires
        0 <= pos <= s.len(),
    ensures
        pos <= newline_at(s, pos) <= s.len(),
        newline_at(s, pos) < s.len() ==> s[newline_at(s, pos)] == 10,
        forall|i: int| pos <= i < newline_at(s, pos) ==> #[trigger] s[i] != 10,
    decreases s.len() - pos,
{
    if pos < s.len() && s[pos] != 10 {
        lemma_newline_at(s, pos + 1);
    }
}

pub(crate) proof fn lemma_digits_end(l: Seq<u8>, p: int)
    requires
        0 <= p <= l.len(),
    ensures
        p <= digits_end(l, p) <= l.len(),
        forall|i: int| p <= i < digits_end(l, p) ==> is_digit(#[trigger] l[i]),
        digits_end(l, p) < l.len() ==> !is_digit(l[digits_end(l, p)]),
    decreases l.len() - p,
{
    if p < l.len() && is_digit(l[p]) {
        lemma_digits_end(l, p + 1);
    }
}

/// The value of a digit string never shrinks as digits are appended.
proof fn lemma_digits_grow(l: Seq<u8>, start: int, i: int, j: int)
    requires
        start <= i <= j,
    ensures
        digits_value(l, start, i) <= digits_value(l, start, j),
    decreases j - i,
{
    if i < j {
        lemma_digits_grow(l, start, i, j - 1);
    }
}

/// Parses a quoted string whose opening quote precedes `start`.
pub fn parse_quoted_string(buf: &[u8], start: usize) -> (r: Result<(String, usize), SieveError>)
    ensures
        match quoted(buf@, start as int, Seq::empty()) {
            None => r matches Err(e) && reports(e, ReadFailure::Unterminated),
            Some((b, np)) => r matches Ok((s, q)) && s@ == utf8_lossy(b) && q == np,
        },
{
    let mut bytes: Vec<u8> = Vec::new();
    let mut i: usize = start;
    while i < buf.len()
        invariant
            quoted(buf@, i as int, bytes@) == quoted(buf@, start as int, Seq::empty()),
        decreases buf.len() - i,
    {
        if buf[i] == 34u8 {
            let s = lossy_string(bytes.as_slice());
            return Ok((s, i + 1));
        } else if buf[i] == 92u8 && i + 1 < buf.len() {
            bytes.push(buf[i + 1]);
            i += 2;
        } else {
            bytes.push(buf[i]);
            i += 1;
        }
    }
    Err(SieveError::Parse("unterminated quoted-string".to_owned()))
}

/// Parses the inside of a literal marker `{n}` or `{n+}` whose digits start at
/// `start`: the size, whether it is non-synchronising, and the index after it.
pub fn parse_literal_marker(buf: &[u8], start: usize) -> (r: Result<(usize, bool, usize), SieveError>)
    requires
        start <= buf@.len(),
    ensures
        match literal_marker(buf@, start as int) {
            Err(f) => r matches Err(e) && reports(e, f),
            Ok((n, np)) => r matches Ok((m, plus, q)) && m == n && q == np && plus == (digits_end(
                buf@,
                start as int,
            ) < buf@.len() && buf@[digits_end(buf@, start as int)] == 43),
        },
{
    let ghost l = buf@;
    proof {
        lemma_digits_end(l, start as int);
    }
    let ghost e = digits_end(l, start as int);
    let mut i: usize = start;
    let mut n: usize = 0;
    while i < buf.len() && 48u8 <= buf[i] && buf[i] <= 57u8
        invariant
            start <= i <= e,
            e == digits_end(l, start as int),
            e <= l.len(),
            forall|k: int| start <= k < e ==> is_digit(#[trigger] l[k]),
            e < l.len() ==> !is_digit(l[e]),
            l == buf@,
            n == digits_value(l, start as int, i as int),
        decreases buf.len() - i,
    {
        let d: usize = (buf[i] - 48u8) as usize;
        assert(digits_value(l, start as int, i + 1) == n * 10 + d);
        match n.checked_mul(10) {
            Some(m) => match m.checked_add(d) {
                Some(v) => {
                    n = v;
                },
                None => {
                    proof {
                        lemma_digits_grow(l, start as int, i + 1, e);
                    }
                    return Err(SieveError::Parse("literal size overflow".to_owned()));
                },
            },
            None => {
                proof {
                    lemma_digits_grow(l, start as int, i + 1, e);
                }
                return Err(SieveError::Parse("literal size overflow".to_owned()));
            },
        }
        i += 1;
    }
    assert(i == e);
    if i == start {
        return Err(SieveError::Parse("literal marker missing digits".to_owned()));
    }
    let plus = i < buf.len() && buf[i] == 43u8;
    if plus {
        i += 1;
    }
    if i >= buf.len() || buf[i] != 125u8 {
        return Err(SieveError::Parse("literal marker missing closing brace".to_owned()));
    }
    Ok((n, plus, i + 1))
}

/// Reads the physical line that starts at `pos` into `buf`, without its line
/// ending; returns the index after its line feed.
fn read_physical_line(input: &[u8], pos: usize, buf: &mut Vec<u8>) -> (r: Result<usize, SieveError>)
    requires
        pos <= input@.len(),
    ensures
        match physical_line(input@, pos as int) {
            None => r matches Err(e) && reports(e, ReadFailure::Eof),
            Some((line, next)) => r matches Ok(n) && n == next && final(buf)@ == line,
        },
{
    if pos >= input.len() {
        return Err(SieveError::Io(crate::io_error::unexpected_eof("managesieve closed stream")));
    }
    proof {
        lemma_newline_at(input@, pos as int);
    }
    let mut k: usize = pos;
    while k < input.len() && input[k] != 10u8
        invariant
            pos <= k <= newline_at(input@, pos as int),
            newline_at(input@, pos as int) <= input@.len(),
            forall|i: int| pos <= i < newline_at(input@, pos as int) ==> #[trigger] input@[i] != 10,
            newline_at(input@, pos as int) < input@.len() ==> input@[newline_at(input@, pos as int)] == 10,
        decreases input.len() - k,
    {
        k += 1;
    }
    let next: usize = if k < input.len() { k + 1 } else { input.len() };
    let raw = vstd::slice::slice_subrange(input, pos, next);
    buf.clear();
    let mut j: usize = 0;
    while j < raw.len()
        invariant
            buf@ == raw@.take(j as int),
            j <= raw@.len(),
        decreases raw.len() - j,
    {
        buf.push(raw[j]);
        j += 1;
        assert(raw@.take(j as int) =~= raw@.take(j - 1).push(raw@[j - 1]));
    }
    assert(raw@.take(j as int) =~= raw@);
    while buf.len() > 0 && (buf[buf.len() - 1] == 10u8 || buf[buf.len() - 1] == 13u8)
        invariant
            strip_eol(buf@) == strip_eol(raw@),
        decreases buf.len(),
    {
        buf.pop();
    }
    Ok(next)
}

/// Tokenises one physical line, appending to `tokens`; returns the size of
/// the literal that the line announces at its end, if it does.
fn scan_physical(line: &[u8], tokens: &mut Vec<Token>) -> (r: Result<Option<usize>, SieveError>)
    ensures
        match scan_line(line@, 0, tokens_view(old(tokens)@)) {
            LineScan::Done(t) => r == Ok::<Option<usize>, SieveError>(None) && tokens_view(final(tokens)@) == t,
            LineScan::Literal(t, n) => r matches Ok(Some(m)) && m == n && tokens_view(final(tokens)@) == t,
            LineScan::Failed(f) => r matches Err(e) && reports(e, f),
        },
{
    let ghost l = line@;
    let ghost goal = scan_line(l, 0, tokens_view(tokens@));
    let mut pos: usize = 0;
    loop
        invariant
            l == line@,
            pos <= l.len(),
            scan_line(l, pos as int, tokens_view(tokens@)) == goal,
            goal == scan_line(line@, 0, tokens_view(old(tokens)@)),
        decreases l.len() - pos,
    {
        let ghost p0 = pos as int;
        proof {
            lemma_skip_blanks(l, p0);
        }
        let ghost q = skip_blanks(l, p0);
        while pos < line.len() && (line[pos] == 32u8 || line[pos] == 9u8)
            invariant
                l == line@,
                p0 <= pos <= q,
                q == skip_blanks(l, pos as int),
            decreases line.len() - pos,
        {
            proof {
                lemma_skip_blanks(l, pos + 1);
            }
            pos += 1;
        }
        assert(pos == q);
        assert(scan_line(l, p0, tokens_view(tokens@)) == goal);
        if pos >= line.len() {
            return Ok(None);
        }
        let b = line[pos];
        if b == 34u8 {
            proof {
                lemma_quoted(l, pos + 1, Seq::empty());
            }
            let (s, np) = match parse_quoted_string(line, pos + 1) {
                Ok(v) => v,
                Err(e) => return Err(e),
            };
            let ghost before = tokens_view(tokens@);
            tokens.push(Token::QStr(s));
            assert(tokens_view(tokens@) =~= before.push(TokenV::QStr(s@)));
            pos = np;
        } else if b == 123u8 {
            let (n, _plus, np) = match parse_literal_marker(line, pos + 1) {
                Ok(v) => v,
                Err(e) => return Err(e),
            };
            let mut t: usize = np;
            while t < line.len() && (line[t] == 32u8 || line[t] == 9u8)
                invariant
                    l == line@,
                    np <= t <= l.len(),
                    forall|i: int| np <= i < t ==> is_blank(#[trigger] l[i]),
                decreases line.len() - t,
            {
                t += 1;
            }
            if t < line.len() {
                assert(!is_blank(l[t as int]));
                let trailing = vstd::slice::slice_subrange(line, np, line.len());
                let text = lossy_string(trailing);
                let dbg = debug_string(text.as_str());
                let mut msg = String::new();
                msg.append("literal marker {");
                let digits = crate::text::decimal_string(n as u64);
                msg.append(digits.as_str());
                msg.append("} not at end of line: trailing ");
                msg.append(dbg.as_str());
                return Err(SieveError::Parse(msg));
            }
            return Ok(Some(n));
        } else if b == 40u8 {
            let ghost before = tokens_view(tokens@);
            tokens.push(Token::LParen);
            assert(tokens_view(tokens@) =~= before.push(TokenV::LParen));
            pos += 1;
        } else if b == 41u8 {
            let ghost before = tokens_view(tokens@);
            tokens.push(Token::RParen);
            assert(tokens_view(tokens@) =~= before.push(TokenV::RParen));
            pos += 1;
        } else {
            let start = pos;
            proof {
                lemma_atom_end(l, start as int);
            }
            while pos < line.len() && !(line[pos] == 32u8 || line[pos] == 9u8 || line[pos] == 34u8
                || line[pos] == 123u8 || line[pos] == 40u8 || line[pos] == 41u8)
                invariant
                    l == line@,
                    start <= pos <= atom_end(l, start as int),
                    atom_end(l, start as int) == atom_end(l, pos as int),
                    atom_end(l, start as int) <= l.len(),
                decreases line.len() - pos,
            {
                proof {
                    lemma_atom_end(l, pos + 1);
                }
                pos += 1;
            }
            let atom = lossy_string(vstd::slice::slice_subrange(line, start, pos));
            let ghost before = tokens_view(tokens@);
            tokens.push(Token::Atom(atom));
            assert(tokens_view(tokens@) =~= before.push(TokenV::Atom(utf8_lossy(l.subrange(start as int, pos as int)))));
        }
    }
}

/// Reads one logical line starting at `pos`: its tokens, literal bodies
/// included, and the index after it.
fn read_logical_line(input: &[u8], pos: usize) -> (r: Result<(Vec<Token>, usize), SieveError>)
    requires
        pos <= input@.len(),
    ensures
        match logical_line(input@, pos as int, Seq::empty()) {
            Err(f) => r matches Err(e) && reports(e, f),
            Ok((t, next)) => r matches Ok((v, q)) && tokens_view(v@) == t && q == next,
        },
{
    let ghost s = input@;
    let mut tokens: Vec<Token> = Vec::new();
    let mut physical: Vec<u8> = Vec::new();
    let mut cur: usize = pos;
    assert(tokens_view(tokens@) =~= Seq::<TokenV>::empty());
    loop
        invariant
            s == input@,
            cur <= s.len(),
            logical_line(s, cur as int, tokens_view(tokens@)) == logical_line(s, pos as int, Seq::empty()),
        decreases s.len() - cur,
    {
        let next = match read_physical_line(input, cur, &mut physical) {
            Ok(n) => n,
            Err(e) => return Err(e),
        };
        proof {
            lemma_newline_at(s, cur as int);
        }
        let ghost before = tokens_view(tokens@);
        let lit = match scan_physical(physical.as_slice(), &mut tokens) {
            Ok(l) => l,
            Err(e) => return Err(e),
        };
        assert(physical_line(s, cur as int) is Some);
        let ghost pl = physical_line(s, cur as int)->0;
        assert(pl.1 == next as int);
        assert(pl.0 == physical@);
        assert(physical_line(s, cur as int) == Some((physical@, next as int)));
        assert(logical_line(s, cur as int, before) == match scan_line(physical@, 0, before) {
            LineScan::Failed(f) => Err(f),
            LineScan::Done(t) => Ok((t, next as int)),
            LineScan::Literal(t, n) => if next <= cur || n > s.len() - next {
                Err(ReadFailure::Eof)
            } else {
                logical_line(s, next + n, t.push(TokenV::Literal(s.subrange(next as int, next + n))))
            },
        });
        match lit {
            None => {
                return Ok((tokens, next));
            },
            Some(n) => {
                if n > input.len() - next {
                    return Err(SieveError::Io(crate::io_error::unexpected_eof("failed to fill whole buffer")));
                }
                let data = vstd::slice::slice_to_vec(vstd::slice::slice_subrange(input, next, next + n));
                let ghost mid = tokens_view(tokens@);
                tokens.push(Token::Literal(data));
                assert(tokens_view(tokens@) =~= mid.push(TokenV::Literal(s.subrange(next as int, next + n))));
                cur = next + n;
            },
        }
    }
}

#[derive(Debug)]
pub struct ResponseBlock {
    pub data: Vec<Vec<Token>>,
    pub status: StatusLine,
}

/// Reads a response that starts at `pos`: its data lines, its status line and
/// the index after it.
pub fn read_response_at(input: &[u8], pos: usize) -> (r: Result<(ResponseBlock, usize), SieveError>)
    requires
        pos <= input@.len(),
    ensures
        match response_from(input@, pos as int, Seq::empty()) {
            Err(f) => r matches Err(e) && reports(e, f),
            Ok((data, st, next)) => r matches Ok((b, q)) && lines_view(b.data@) == data && b.status@ == st && q == next,
        },
{
    let ghost s = input@;
    let mut data: Vec<Vec<Token>> = Vec::new();
    let mut cur: usize = pos;
    assert(lines_view(data@) =~= Seq::<Seq<TokenV>>::empty());
    loop
        invariant
            s == input@,
            cur <= s.len(),
            response_from(s, cur as int, lines_view(data@)) == response_from(s, pos as int, Seq::empty()),
        decreases s.len() - cur,
    {
        let (line, next) = match read_logical_line(input, cur) {
            Ok(v) => v,
            Err(e) => return Err(e),
        };
        if next <= cur || next > input.len() {
            return Err(SieveError::Io(crate::io_error::unexpected_eof("managesieve closed stream")));
        }
        if line.len() == 0 {
            cur = next;
        } else {
            match try_parse_status(line.as_slice()) {
                Some(status) => {
                    return Ok((ResponseBlock { data, status }, next));
                },
                None => {
                    let ghost before = lines_view(data@);
                    data.push(line);
                    assert(lines_view(data@) =~= before.push(tokens_view(line@)));
                    cur = next;
                },
            }
        }
    }
}

/// Reads the response at the start of `input`.
pub fn read_response(input: &[u8]) -> (r: Result<ResponseBlock, SieveError>)
    ensures
        match response_from(input@, 0, Seq::empty()) {
            Err(f) => r matches Err(e) && reports(e, f),
            Ok((data, st, next)) => r matches Ok(b) && lines_view(b.data@) == data && b.status@ == st,
        },
{
    match read_response_at(input, 0) {
        Ok((b, _)) => Ok(b),
        Err(e) => Err(e),
    }
}

// ---------------------------------------------------------------------------
// Interpreting the data lines of a response.
// ---------------------------------------------------------------------------

#[derive(Debug, Default, Clone)]
pub struct ListedScript {
    pub name: String,
    pub active: bool,
}

pub struct ListedScriptV {
    pub name: Seq<char>,
    pub active: bool,
}

impl View for ListedScript {
    type V = ListedScriptV;

    open spec fn view(&self) -> ListedScriptV {
        ListedScriptV { name: self.name@, active: self.active }
    }
}

pub open spec fn is_active_atom(t: TokenV) -> bool {
    match t {
        TokenV::Atom(a) => eq_ignore_case(a, "ACTIVE"@),
        _ => false,
    }
}

/// A later token of the line is the atom `ACTIVE` (in any case).
pub open spec fn marked_active(line: Seq<TokenV>) -> bool {
    exists|i: int| 1 <= i < line.len() && #[trigger] is_active_atom(line[i])
}

/// The scripts named by the first `n` lines; none if a non-blank line does
/// not start with a name.
pub open spec fn listed_scripts(data: Seq<Seq<TokenV>>, n: int) -> Option<Seq<ListedScriptV>>
    decreases n,
{
    if n <= 0 {
        Some(Seq::empty())
    } else {
        match listed_scripts(data, n - 1) {
            None => None,
            Some(acc) => {
                let line = data[n - 1];
                if line.len() == 0 {
                    Some(acc)
                } else {
                    match token_text(line[0]) {
                        None => None,
                        Some(name) => Some(acc.push(ListedScriptV { name, active: marked_active(line) })),
                    }
                }
            },
        }
    }
}

fn is_active_marker(line: &Vec<Token>) -> (r: bool)
    ensures
        r == marked_active(tokens_view(line@)),
{
    let ghost tv = tokens_view(line@);
    let mut i: usize = 1;
    while i < line.len()
        invariant
            tv == tokens_view(line@),
            1 <= i,
            forall|j: int| 1 <= j < i && j < line@.len() ==> !#[trigger] is_active_atom(tv[j]),
        decreases line.len() - i,
    {
        if let Token::Atom(a) = &line[i] {
            if str_eq_ignore_case(a.as_str(), "ACTIVE") {
                assert(is_active_atom(tv[i as int]));
                return true;
            }
        }
        i += 1;
    }
    false
}

/// Reads a LISTSCRIPTS response: one script per line, `ACTIVE` marking the
/// active one; blank lines are skipped.
pub fn parse_listscripts(data: &[Vec<Token>]) -> (r: Result<Vec<ListedScript>, SieveError>)
    ensures
        match listed_scripts(lines_view(data@), data@.len() as int) {
            Some(v) => r matches Ok(out) && out@.map_values(|x: ListedScript| x@) == v,
            None => r matches Err(e) && e is Parse,
        },
{
    let ghost lv = lines_view(data@);
    let mut out: Vec<ListedScript> = Vec::new();
    let mut k: usize = 0;
    while k < data.len()
        invariant
            lv == lines_view(data@),
            k <= data@.len(),
            listed_scripts(lv, k as int) == Some(out@.map_values(|x: ListedScript| x@)),
        decreases data.len() - k,
    {
        let line = &data[k];
        assert(lv[k as int] == tokens_view(line@));
        if line.len() > 0 {
            let name = match line[0].as_string() {
                Some(n) => n,
                None => {
                    assert(listed_scripts(lv, k + 1) is None);
                    proof {
                        lemma_listed_none_stays(lv, k + 1, data@.len() as int);
                    }
                    return Err(SieveError::Parse("LISTSCRIPTS line missing name".to_owned()));
                },
            };
            let active = is_active_marker(line);
            let ghost before = out@.map_values(|x: ListedScript| x@);
            out.push(ListedScript { name, active });
            assert(out@.map_values(|x: ListedScript| x@) =~= before.push(ListedScriptV { name: name@, active }));
        }
        k += 1;
    }
    Ok(out)
}

proof fn lemma_listed_none_stays(data: Seq<Seq<TokenV>>, k: int, n: int)
    requires
        0 < k <= n,
        listed_scripts(data, k) is None,
    ensures
        listed_scripts(data, n) is None,
    decreases n - k,
{
    if k < n {
        lemma_listed_none_stays(data, k + 1, n);
    }
}

/// The bodies (strings and literals) among the first `k` tokens of a line.
pub open spec fn line_bodies(line: Seq<TokenV>, k: int) -> Seq<Seq<u8>>
    decreases k,
{
    if k <= 0 {
        Seq::empty()
    } else {
        match token_bytes(line[k - 1]) {
            Some(b) => line_bodies(line, k - 1).push(b),
            None => line_bodies(line, k - 1),
        }
    }
}

/// The bodies among the first `n` lines, in order.
pub open spec fn all_bodies(data: Seq<Seq<TokenV>>, n: int) -> Seq<Seq<u8>>
    decreases n,
{
    if n <= 0 {
        Seq::empty()
    } else {
        all_bodies(data, n - 1) + line_bodies(data[n - 1], data[n - 1].len() as int)
    }
}

/// Reads a GETSCRIPT response: the script is its one string or literal;
/// no body reads as an empty script, more than one is an error.
pub fn parse_getscript(data: &[Vec<Token>]) -> (r: Result<Vec<u8>, SieveError>)
    ensures
        ({
            let bodies = all_bodies(lines_view(data@), data@.len() as int);
            if bodies.len() == 0 {
                r matches Ok(v) && v@ == Seq::<u8>::empty()
            } else if bodies.len() == 1 {
                r matches Ok(v) && v@ == bodies[0]
            } else {
                r matches Err(SieveError::Parse(m)) && m@ == "GETSCRIPT returned more than one body token"@
            }
        }),
{
    let ghost lv = lines_view(data@);
    let mut buf: Vec<u8> = Vec::new();
    let mut found = false;
    let mut k: usize = 0;
    while k < data.len()
        invariant
            lv == lines_view(data@),
            k <= data@.len(),
            all_bodies(lv, k as int).len() <= 1,
            found == (all_bodies(lv, k as int).len() == 1),
            found ==> buf@ == all_bodies(lv, k as int)[0],
        decreases data.len() - k,
    {
        let line = &data[k];
        let ghost tv = tokens_view(line@);
        assert(lv[k as int] == tv);
        let mut j: usize = 0;
        while j < line.len()
            invariant
                lv == lines_view(data@),
                tv == tokens_view(line@),
                k < data@.len(),
                lv[k as int] == tv,
                j <= line@.len(),
                all_bodies(lv, k as int).len() + line_bodies(tv, j as int).len() <= 1,
                found == (all_bodies(lv, k as int).len() + line_bodies(tv, j as int).len() == 1),
                found ==> buf@ == (all_bodies(lv, k as int) + line_bodies(tv, j as int))[0],
            decreases line.len() - j,
        {
            match line[j].as_string_bytes() {
                Some(b) => {
                    if found {
                        proof {
                            lemma_bodies_grow(lv, k as int + 1, data@.len() as int);
                            lemma_line_bodies_grow(tv, j as int + 1, tv.len() as int);
                            assert(all_bodies(lv, k as int + 1) == all_bodies(lv, k as int) + line_bodies(tv, tv.len() as int));
                        }
                        return Err(SieveError::Parse("GETSCRIPT returned more than one body token".to_owned()));
                    }
                    buf = b;
                    found = true;
                },
                None => {},
            }
            j += 1;
        }
        assert(all_bodies(lv, k as int + 1) == all_bodies(lv, k as int) + line_bodies(tv, tv.len() as int));
        k += 1;
    }
    if !found {
        return Ok(Vec::new());
    }
    Ok(buf)
}

proof fn lemma_line_bodies_grow(line: Seq<TokenV>, j: int, k: int)
    requires
        0 <= j <= k,
    ensures
        line_bodies(line, j).len() <= line_bodies(line, k).len(),
    decreases k - j,
{
    if j < k {
        lemma_line_bodies_grow(line, j, k - 1);
    }
}

proof fn lemma_bodies_grow(data: Seq<Seq<TokenV>>, j: int, k: int)
    requires
        0 <= j <= k,
    ensures
        all_bodies(data, j).len() <= all_bodies(data, k).len(),
    decreases k - j,
{
    if j < k {
        lemma_bodies_grow(data, j, k - 1);
    }
}

#[derive(Debug, Default, Clone)]
pub struct Capabilities {
    pub implementation: Option<String>,
    pub version: Option<String>,
    pub sasl: Vec<String>,
    pub sieve: Option<String>,
    pub starttls: bool,
    pub maxredirects: Option<u32>,
    pub notify: Option<String>,
    pub language: Option<String>,
    pub owner: Option<String>,
    pub raw: Vec<(String, String)>,
}

pub struct CapabilitiesV {
    pub implementation: Option<Seq<char>>,
    pub version: Option<Seq<char>>,
    pub sasl: Seq<Seq<char>>,
    pub sieve: Option<Seq<char>>,
    pub starttls: bool,
    pub maxredirects: Option<u32>,
    pub notify: Option<Seq<char>>,
    pub language: Option<Seq<char>>,
    pub owner: Option<Seq<char>>,
    pub raw: Seq<(Seq<char>, Seq<char>)>,
}

pub open spec fn strings_view(v: Seq<String>) -> Seq<Seq<char>> {
    v.map_values(|s: String| s@)
}

impl View for Capabilities {
    type V = CapabilitiesV;

    open spec fn view(&self) -> CapabilitiesV {
        CapabilitiesV {
            implementation: opt_string_view(self.implementation),
            version: opt_string_view(self.version),
            sasl: strings_view(self.sasl@),
            sieve: opt_string_view(self.sieve),
            starttls: self.starttls,
            maxredirects: self.maxredirects,
            notify: opt_string_view(self.notify),
            language: opt_string_view(self.language),
            owner: opt_string_view(self.owner),
            raw: self.raw@.map_values(|p: (String, String)| (p.0@, p.1@)),
        }
    }
}

/// The texts of the tokens `t[from..k]`, tokens without text left out.
pub open spec fn texts_of(t: Seq<TokenV>, from: int, k: int) -> Seq<Seq<char>>
    decreases k - from,
{
    if k <= from {
        Seq::empty()
    } else {
        match token_text(t[k - 1]) {
            Some(s) => texts_of(t, from, k - 1).push(s),
            None => texts_of(t, from, k - 1),
        }
    }
}

/// The first `n` words joined by single spaces.
pub open spec fn join_spaced(w: Seq<Seq<char>>, n: int) -> Seq<char>
    decreases n,
{
    if n <= 0 {
        Seq::empty()
    } else if n == 1 {
        w[0]
    } else {
        join_spaced(w, n - 1) + seq![' '] + w[n - 1]
    }
}

/// The value of a capability line: the texts after its name, space-joined.
pub open spec fn capability_value(line: Seq<TokenV>) -> Seq<char> {
    let w = texts_of(line, 1, line.len() as int);
    join_spaced(w, w.len() as int)
}

pub open spec fn is_digit_char(c: char) -> bool {
    '0' <= c <= '9'
}

pub open spec fn decimal_value(s: Seq<char>) -> nat
    decreases s.len(),
{
    if s.len() == 0 {
        0
    } else {
        decimal_value(s.drop_last()) * 10 + ((s.last() as u32) - 48) as nat
    }
}

/// What `str::parse::<u32>` reads: an optional `+` and one or more decimal
/// digits whose value fits in 32 bits.
pub open spec fn parse_u32_text(s: Seq<char>) -> Option<u32> {
    parse_u32_digits(if s.len() > 0 && s[0] == '+' { s.drop_first() } else { s })
}

/// A non-empty run of decimal digits whose value fits in 32 bits.
pub open spec fn parse_u32_digits(d: Seq<char>) -> Option<u32> {
    if d.len() > 0 && (forall|i: int| 0 <= i < d.len() ==> is_digit_char(#[trigger] d[i])) && decimal_value(d) <= u32::MAX {
        Some(decimal_value(d) as u32)
    } else {
        None
    }
}

/// The effect of a capability named `u` (upper-cased) with value `v`.
pub open spec fn apply_capability(c: CapabilitiesV, u: Seq<char>, v: Seq<char>) -> CapabilitiesV {
    if u == "IMPLEMENTATION"@ {
        CapabilitiesV { implementation: Some(v), ..c }
    } else if u == "VERSION"@ {
        CapabilitiesV { version: Some(v), ..c }
    } else if u == "SASL"@ {
        CapabilitiesV { sasl: ascii_words(v).map_values(|w: Seq<char>| upper_seq(w)), ..c }
    } else if u == "SIEVE"@ {
        CapabilitiesV { sieve: Some(v), ..c }
    } else if u == "STARTTLS"@ {
        CapabilitiesV { starttls: true, ..c }
    } else if u == "MAXREDIRECTS"@ {
        CapabilitiesV { maxredirects: parse_u32_text(v), ..c }
    } else if u == "NOTIFY"@ {
        CapabilitiesV { notify: Some(v), ..c }
    } else if u == "LANGUAGE"@ {
        CapabilitiesV { language: Some(v), ..c }
    } else if u == "OWNER"@ {
        CapabilitiesV { owner: Some(v), ..c }
    } else {
        CapabilitiesV { raw: c.raw.push((u, v)), ..c }
    }
}

/// The effect of one capability line.
pub open spec fn capability_step(c: CapabilitiesV, line: Seq<TokenV>) -> CapabilitiesV {
    if line.len() == 0 {
        c
    } else {
        match token_text(line[0]) {
            None => c,
            Some(name) => apply_capability(c, upper_seq(name), capability_value(line)),
        }
    }
}

pub open spec fn no_capabilities() -> CapabilitiesV {
    CapabilitiesV {
        implementation: None,
        version: None,
        sasl: Seq::empty(),
        sieve: None,
        starttls: false,
        maxredirects: None,
        notify: None,
        language: None,
        owner: None,
        raw: Seq::empty(),
    }
}

/// The capabilities that the first `n` lines announce.
pub open spec fn capabilities_of(data: Seq<Seq<TokenV>>, n: int) -> CapabilitiesV
    decreases n,
{
    if n <= 0 {
        no_capabilities()
    } else {
        capability_step(capabilities_of(data, n - 1), data[n - 1])
    }
}

fn line_value(line: &Vec<Token>) -> (r: String)
    ensures
        r@ == capability_value(tokens_view(line@)),
{
    let ghost tv = tokens_view(line@);
    let mut out = String::new();
    let mut count: usize = 0;
    let mut k: usize = 1;
    assert(texts_of(tv, 1, 1) =~= Seq::<Seq<char>>::empty());
    while k < line.len()
        invariant
            tv == tokens_view(line@),
            1 <= k <= line@.len() || (k == 1 && line@.len() <= 1),
            count == texts_of(tv, 1, k as int).len(),
            count <= k,
            out@ == join_spaced(texts_of(tv, 1, k as int), count as int),
        decreases line.len() - k,
    {
        match line[k].as_string() {
            Some(s) => {
                if count > 0 {
                    crate::text::push_char(&mut out, ' ');
                }
                out.append(s.as_str());
                assert(texts_of(tv, 1, k + 1) == texts_of(tv, 1, k as int).push(s@));
                assert(texts_of(tv, 1, k + 1).drop_last() =~= texts_of(tv, 1, k as int));
                proof {
                    lemma_join_prefix(texts_of(tv, 1, k + 1), count as int);
                }
                count += 1;
            },
            None => {},
        }
        k += 1;
    }
    if line.len() <= 1 {
        assert(texts_of(tv, 1, tv.len() as int) =~= Seq::<Seq<char>>::empty());
    }
    out
}

/// Joining a prefix of a word list only reads that prefix.
proof fn lemma_join_prefix(w: Seq<Seq<char>>, n: int)
    requires
        0 <= n < w.len(),
    ensures
        join_spaced(w, n) == join_spaced(w.drop_last(), n),
    decreases n,
{
    if n > 1 {
        lemma_join_prefix(w, n - 1);
    }
}

fn words_upper(v: &str) -> (r: Vec<String>)
    ensures
        strings_view(r@) == ascii_words(v@).map_values(|w: Seq<char>| upper_seq(w)),
{
    let chars = crate::text::chars_of(v);
    let mut done: Vec<String> = Vec::new();
    let mut cur: Vec<char> = Vec::new();
    let mut i: usize = 0;
    assert(v@.take(0) =~= Seq::<char>::empty());
    while i < chars.len()
        invariant
            chars@ == v@,
            i <= chars@.len(),
            word_state(v@.take(i as int)) == (done@.map_values(|s: String| s@).map_values(|w: Seq<char>| w), cur@),
            strings_view(done@) == word_state(v@.take(i as int)).0,
            cur@ == word_state(v@.take(i as int)).1,
        decreases chars.len() - i,
    {
        let c = chars[i];
        assert(v@.take(i + 1).drop_last() =~= v@.take(i as int));
        assert(v@.take(i + 1).last() == c);
        if c == ' ' || c == '\t' || c == '\n' || c == '\x0C' || c == '\r' {
            if cur.len() > 0 {
                let w = string_of_chars(&cur);
                let ghost before = strings_view(done@);
                done.push(w);
                assert(strings_view(done@) =~= before.push(cur@));
                cur = Vec::new();
            }
        } else {
            cur.push(c);
        }
        i += 1;
    }
    assert(v@.take(i as int) =~= v@);
    if cur.len() > 0 {
        let w = string_of_chars(&cur);
        let ghost before = strings_view(done@);
        done.push(w);
        assert(strings_view(done@) =~= before.push(cur@));
    }
    let mut out: Vec<String> = Vec::new();
    let mut j: usize = 0;
    while j < done.len()
        invariant
            j <= done@.len(),
            strings_view(out@) =~= strings_view(done@).take(j as int).map_values(|w: Seq<char>| upper_seq(w)),
        decreases done.len() - j,
    {
        let u = to_upper(done[j].as_str());
        let ghost before = strings_view(out@);
        out.push(u);
        assert(strings_view(out@) =~= before.push(upper_seq(strings_view(done@)[j as int])));
        assert(strings_view(done@).take(j + 1) =~= strings_view(done@).take(j as int).push(strings_view(done@)[j as int]));
        j += 1;
    }
    assert(strings_view(done@).take(j as int) =~= strings_view(done@));
    out
}

/// A string of the given characters.
fn string_of_chars(v: &Vec<char>) -> (r: String)
    ensures
        r@ == v@,
{
    let mut out = String::new();
    let mut i: usize = 0;
    while i < v.len()
        invariant
            i <= v@.len(),
            out@ == v@.take(i as int),
        decreases v.len() - i,
    {
        crate::text::push_char(&mut out, v[i]);
        i += 1;
        assert(v@.take(i as int) =~= v@.take(i - 1).push(v@[i - 1]));
    }
    assert(v@.take(i as int) =~= v@);
    out
}

proof fn lemma_decimal_grow(d: Seq<char>, i: int)
    requires
        0 <= i <= d.len(),
    ensures
        decimal_value(d.take(i)) <= decimal_value(d),
    decreases d.len() - i,
{
    if i < d.len() {
        lemma_decimal_grow(d, i + 1);
        assert(d.take(i + 1).drop_last() =~= d.take(i));
    } else {
        assert(d.take(i) =~= d);
    }
}

/// `str::parse::<u32>`, returning the value when the text is one.
fn parse_u32(s: &str) -> (r: Option<u32>)
    ensures
        r == parse_u32_text(s@),
{
    let chars = crate::text::chars_of(s);
    let ghost d = if s@.len() > 0 && s@[0] == '+' { s@.drop_first() } else { s@ };
    let start: usize = if chars.len() > 0 && chars[0] == '+' { 1 } else { 0 };
    assert(d =~= s@.subrange(start as int, s@.len() as int));
    if start >= chars.len() {
        return None;
    }
    let mut n: u32 = 0;
    let mut i: usize = start;
    while i < chars.len()
        invariant
            chars@ == s@,
            d == s@.subrange(start as int, s@.len() as int),
            d == (if s@.len() > 0 && s@[0] == '+' { s@.drop_first() } else { s@ }),
            d.len() > 0,
            start <= i <= chars@.len(),
            forall|k: int| 0 <= k < i - start ==> is_digit_char(#[trigger] d[k]),
            n == decimal_value(d.take(i - start)),
        decreases chars.len() - i,
    {
        let c = chars[i];
        if !('0' <= c && c <= '9') {
            assert(!is_digit_char(d[i - start]));
            assert(!(forall|k: int| 0 <= k < d.len() ==> is_digit_char(#[trigger] d[k])));
            assert(parse_u32_digits(d) is None);
            return None;
        }
        let dv: u32 = (c as u32) - 48;
        assert(d.take(i - start + 1).drop_last() =~= d.take(i - start));
        assert(decimal_value(d.take(i - start + 1)) == n * 10 + dv);
        match n.checked_mul(10) {
            Some(m) => match m.checked_add(dv) {
                Some(v) => {
                    n = v;
                },
                None => {
                    proof {
                        lemma_decimal_grow(d, i - start + 1);
                    }
                    return None;
                },
            },
            None => {
                proof {
                    lemma_decimal_grow(d, i - start + 1);
                }
                return None;
            },
        }
        i += 1;
    }
    assert(d.take(i - start) =~= d);
    Some(n)
}

/// Reads the capability lines of a greeting or CAPABILITY response.
pub fn parse_capabilities(data: &[Vec<Token>]) -> (r: Capabilities)
    ensures
        r@ == capabilities_of(lines_view(data@), data@.len() as int),
{
    let ghost lv = lines_view(data@);
    let mut caps = Capabilities {
        implementation: None,
        version: None,
        sasl: Vec::new(),
        sieve: None,
        starttls: false,
        maxredirects: None,
        notify: None,
        language: None,
        owner: None,
        raw: Vec::new(),
    };
    assert(strings_view(caps.sasl@) =~= Seq::<Seq<char>>::empty());
    assert(caps@.raw =~= Seq::<(Seq<char>, Seq<char>)>::empty());
    assert(caps@ == no_capabilities());
    let mut k: usize = 0;
    while k < data.len()
        invariant
            lv == lines_view(data@),
            k <= data@.len(),
            caps@ == capabilities_of(lv, k as int),
        decreases data.len() - k,
    {
        let line = &data[k];
        assert(lv[k as int] == tokens_view(line@));
        if line.len() > 0 {
            match line[0].as_string() {
                None => {},
                Some(name) => {
                    let value = line_value(line);
                    let u = to_upper(name.as_str());
                    set_capability(&mut caps, u, value);
                },
            }
        }
        k += 1;
    }
    caps
}

impl Capabilities {
    /// Whether the server offers the SASL mechanism (compared ignoring case).
    pub fn has_sasl(&self, mech: &str) -> (r: bool)
        ensures
            r == exists|i: int| 0 <= i < self.sasl@.len() && eq_ignore_case(#[trigger] self.sasl@[i]@, mech@),
    {
        let mut i: usize = 0;
        while i < self.sasl.len()
            invariant
                i <= self.sasl@.len(),
                forall|j: int| 0 <= j < i ==> !eq_ignore_case(#[trigger] self.sasl@[j]@, mech@),
            decreases self.sasl.len() - i,
        {
            if str_eq_ignore_case(self.sasl[i].as_str(), mech) {
                return true;
            }
            i += 1;
        }
        false
    }
}

fn set_capability(caps: &mut Capabilities, u: String, value: String)
    ensures
        final(caps)@ == apply_capability(old(caps)@, u@, value@),
{
    let us = u.as_str();
    if str_eq(us, "IMPLEMENTATION") {
        caps.implementation = Some(value);
    } else if str_eq(us, "VERSION") {
        caps.version = Some(value);
    } else if str_eq(us, "SASL") {
        caps.sasl = words_upper(value.as_str());
    } else if str_eq(us, "SIEVE") {
        caps.sieve = Some(value);
    } else if str_eq(us, "STARTTLS") {
        caps.starttls = true;
    } else if str_eq(us, "MAXREDIRECTS") {
        caps.maxredirects = parse_u32(value.as_str());
    } else if str_eq(us, "NOTIFY") {
        caps.notify = Some(value);
    } else if str_eq(us, "LANGUAGE") {
        caps.language = Some(value);
    } else if str_eq(us, "OWNER") {
        caps.owner = Some(value);
    } else {
        let ghost raw0 = caps@.raw;
        let ghost uv = u@;
        let ghost vv = value@;
        caps.raw.push((u, value));
        assert(caps@.raw =~= raw0.push((uv, vv)));
    }
}


/// The texts of tokens that all have one.
pub open spec fn token_texts(ts: Seq<TokenV>) -> Seq<Seq<char>> {
    Seq::new(ts.len(), |i: int| token_text(ts[i])->Some_0)
}

proof fn lemma_texts_after_name(name: TokenV, ts: Seq<TokenV>, k: int)
    requires
        0 <= k <= ts.len(),
        forall|i: int| 0 <= i < ts.len() ==> #[trigger] token_text(ts[i]) is Some,
    ensures
        texts_of(seq![name] + ts, 1, k + 1) == token_texts(ts).take(k),
    decreases k,
{
    let line = seq![name] + ts;
    if k == 0 {
        assert(token_texts(ts).take(0) =~= Seq::<Seq<char>>::empty());
    } else {
        lemma_texts_after_name(name, ts, k - 1);
        assert(line[k] == ts[k - 1]);
        assert(token_texts(ts).take(k) =~= token_texts(ts).take(k - 1).push(token_text(ts[k - 1])->Some_0));
    }
}

proof fn lemma_value_of_words(ts: Seq<TokenV>)
    requires
        forall|i: int| 0 <= i < ts.len() ==> #[trigger] token_text(ts[i]) is Some,
    ensures
        capability_value(seq![TokenV::Atom("SASL"@)] + ts) == join_spaced(token_texts(ts), ts.len() as int),
{
    lemma_texts_after_name(TokenV::Atom("SASL"@), ts, ts.len() as int);
    assert(token_texts(ts).take(ts.len() as int) =~= token_texts(ts));
    assert((seq![TokenV::Atom("SASL"@)] + ts).len() == ts.len() + 1);
}

proof fn lemma_value_of_one_string(name: Seq<char>, j: Seq<char>)
    ensures
        capability_value(seq![TokenV::QStr(name), TokenV::QStr(j)]) == j,
{
    let l = seq![TokenV::QStr(name), TokenV::QStr(j)];
    assert(texts_of(l, 1, 1) == Seq::<Seq<char>>::empty());
    assert(texts_of(l, 1, 2) =~= seq![j]);
}

proof fn lemma_sasl_applied(c: CapabilitiesV, v: Seq<char>)
    ensures
        apply_capability(c, "SASL"@, v).sasl == ascii_words(v).map_values(|w: Seq<char>| upper_seq(w)),
{
    reveal_strlit("SASL");
    reveal_strlit("IMPLEMENTATION");
    reveal_strlit("VERSION");
    assert("SASL"@.len() == 4);
    assert("IMPLEMENTATION"@.len() == 14);
    assert("VERSION"@.len() == 7);
}

/// A SASL capability sent as separate words gives the same mechanisms as the
/// same words sent as one quoted string joined by spaces: the upper-cased
/// words of that string.
pub proof fn law_sasl_words_or_one_string(c: CapabilitiesV, ts: Seq<TokenV>)
    requires
        forall|i: int| 0 <= i < ts.len() ==> #[trigger] token_text(ts[i]) is Some,
    ensures
        capability_step(c, seq![TokenV::Atom("SASL"@)] + ts)
            == capability_step(c, seq![TokenV::QStr("SASL"@), TokenV::QStr(join_spaced(token_texts(ts), ts.len() as int))]),
        capability_step(c, seq![TokenV::Atom("SASL"@)] + ts).sasl
            == ascii_words(join_spaced(token_texts(ts), ts.len() as int)).map_values(|w: Seq<char>| upper_seq(w)),
{
    let j = join_spaced(token_texts(ts), ts.len() as int);
    let l1 = seq![TokenV::Atom("SASL"@)] + ts;
    let l2 = seq![TokenV::QStr("SASL"@), TokenV::QStr(j)];
    lemma_value_of_words(ts);
    lemma_value_of_one_string("SASL"@, j);
    assert(l1[0] == TokenV::Atom("SASL"@));
    assert(token_text(l1[0]) == Some("SASL"@));
    assert(token_text(l2[0]) == Some("SASL"@));
    reveal_strlit("SASL");
    assert(upper_seq("SASL"@) =~= "SASL"@);
    assert(capability_step(c, l1) == apply_capability(c, "SASL"@, j));
    assert(capability_step(c, l2) == apply_capability(c, "SASL"@, j));
    lemma_sasl_applied(c, j);
}

/// A status word in any of its three spellings (upper, lower or capitalised)
/// gives its status, and no other text gives one.
pub proof fn law_status_words(s: Seq<char>)
    ensures
        (s == "OK"@ || s == "ok"@ || s == "Ok"@) <==> status_word(s) == Some(Status::Okay),
        (s == "NO"@ || s == "no"@ || s == "No"@) <==> status_word(s) == Some(Status::No),
        (s == "BYE"@ || s == "bye"@ || s == "Bye"@) <==> status_word(s) == Some(Status::Bye),
{
    reveal_strlit("OK");
    reveal_strlit("ok");
    reveal_strlit("Ok");
    reveal_strlit("NO");
    reveal_strlit("no");
    reveal_strlit("No");
    reveal_strlit("BYE");
    reveal_strlit("bye");
    reveal_strlit("Bye");
    assert("OK"@.len() == 2 && "OK"@[0] == 'O');
    assert("ok"@.len() == 2 && "ok"@[0] == 'o');
    assert("Ok"@.len() == 2 && "Ok"@[0] == 'O');
    assert("NO"@.len() == 2 && "NO"@[0] == 'N');
    assert("no"@.len() == 2 && "no"@[0] == 'n');
    assert("No"@.len() == 2 && "No"@[0] == 'N');
    assert("BYE"@.len() == 3);
    assert("bye"@.len() == 3);
    assert("Bye"@.len() == 3);
}

/// A capability line sets the capability its name gives (compared upper-cased)
/// to the words after the name, space-joined: the implementation, version,
/// sieve extensions, notify methods, language and owner as that text,
/// MAXREDIRECTS as its number, STARTTLS as present; a name that is none of
/// these (nor SASL) is kept, upper-cased, with its value after the others. The
/// rest of the capabilities stay as they were.
pub proof fn law_capability_lines(c: CapabilitiesV, line: Seq<TokenV>)
    requires
        line.len() > 0,
        token_text(line[0]) is Some,
    ensures
        ({
            let u = upper_seq(token_text(line[0])->Some_0);
            let v = capability_value(line);
            let after = capability_step(c, line);
            &&& u == "IMPLEMENTATION"@ ==> after == CapabilitiesV { implementation: Some(v), ..c }
            &&& u == "VERSION"@ ==> after == CapabilitiesV { version: Some(v), ..c }
            &&& u == "SIEVE"@ ==> after == CapabilitiesV { sieve: Some(v), ..c }
            &&& u == "STARTTLS"@ ==> after == CapabilitiesV { starttls: true, ..c }
            &&& u == "MAXREDIRECTS"@ ==> after == CapabilitiesV { maxredirects: parse_u32_text(v), ..c }
            &&& u == "NOTIFY"@ ==> after == CapabilitiesV { notify: Some(v), ..c }
            &&& u == "LANGUAGE"@ ==> after == CapabilitiesV { language: Some(v), ..c }
            &&& u == "OWNER"@ ==> after == CapabilitiesV { owner: Some(v), ..c }
            &&& !(u == "IMPLEMENTATION"@ || u == "VERSION"@ || u == "SASL"@ || u == "SIEVE"@ || u == "STARTTLS"@
                || u == "MAXREDIRECTS"@ || u == "NOTIFY"@ || u == "LANGUAGE"@ || u == "OWNER"@) ==> after
                == CapabilitiesV { raw: c.raw.push((u, v)), ..c }
        }),
{
    reveal_strlit("IMPLEMENTATION");
    reveal_strlit("VERSION");
    reveal_strlit("SASL");
    reveal_strlit("SIEVE");
    reveal_strlit("STARTTLS");
    reveal_strlit("MAXREDIRECTS");
    reveal_strlit("NOTIFY");
    reveal_strlit("LANGUAGE");
    reveal_strlit("OWNER");
    assert("IMPLEMENTATION"@.len() == 14);
    assert("VERSION"@.len() == 7);
    assert("SASL"@.len() == 4);
    assert("SIEVE"@.len() == 5 && "SIEVE"@[0] == 'S');
    assert("STARTTLS"@.len() == 8 && "STARTTLS"@[0] == 'S');
    assert("MAXREDIRECTS"@.len() == 12);
    assert("NOTIFY"@.len() == 6);
    assert("LANGUAGE"@.len() == 8 && "LANGUAGE"@[0] == 'L');
    assert("OWNER"@.len() == 5 && "OWNER"@[0] == 'O');
}
} // verus!
