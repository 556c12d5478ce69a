//! The local web frontend's request framing and session-token check.
//!
//! The frontend reads one HTTP request per connection, refuses requests
//! that do not present the session token, and answers with a complete
//! response. This module holds those rules: where the header ends, how
//! long the body is declared to be, when a request is complete, which
//! token a request presents, and the response's framing.
use vstd::prelude::*;

use crate::capture::ascii_lower;
use crate::text::{
    chars_of, first_index_of, is_digit, lemma_first_index_of, push_decimal, push_str, range_eq,
    spec_decimal, spec_parse_int, spec_starts_with, spec_trim, string_from_chars, trim_range,
    parse_unsigned,
};
use vstd::string::StringSliceAdditionalSpecFns;
use vstd::utf8::{decode_utf8, encode_utf8, valid_utf8};

verus! {

/// The address the frontend listens on unless told otherwise.
pub const DEFAULT_BIND_ADDRESS: &'static str = "127.0.0.1:8765";

/// Bytes of entropy in the session token, hex-encoded to twice this length.
pub const SESSION_TOKEN_BYTES: usize = 16;

/// Why a request could not be read.
#[derive(Clone, Copy, Debug, PartialEq, Eq, Structural)]
pub enum WebRequestError {
    /// The request exceeds the configured size limit.
    TooLarge,
    /// The header is not UTF-8.
    NotUtf8,
    /// A header line has no `:`.
    Malformed,
    /// The declared content length is not a decimal `usize`.
    InvalidContentLength,
}

/// The message of a request error.
pub open spec fn spec_web_error_message(error: WebRequestError) -> Seq<char> {
    match error {
        WebRequestError::TooLarge => "HTTP request exceeds the configured limit"@,
        WebRequestError::NotUtf8 => "HTTP header is not UTF-8"@,
        WebRequestError::Malformed => "HTTP header is malformed"@,
        WebRequestError::InvalidContentLength => "HTTP content length is invalid"@,
    }
}

impl WebRequestError {
    /// Describes the error in one line.
    pub fn message(&self) -> (message: &'static str)
        ensures
            message@ == spec_web_error_message(*self),
    {
        match self {
            WebRequestError::TooLarge => "HTTP request exceeds the configured limit",
            WebRequestError::NotUtf8 => "HTTP header is not UTF-8",
            WebRequestError::Malformed => "HTTP header is malformed",
            WebRequestError::InvalidContentLength => "HTTP content length is invalid",
        }
    }
}

/// Decodes bytes as UTF-8 text by `std::str::from_utf8`, which fails
/// exactly when the bytes are not valid UTF-8.
#[verifier::external_body]
fn utf8_text(bytes: &[u8]) -> (text: Option<&str>)
    ensures
        match text {
            Some(t) => t.spec_bytes() == bytes@,
            None => !valid_utf8(bytes@),
        },
{
    std::str::from_utf8(bytes).ok()
}

/// Whether two tokens are equal, comparing every byte so that the time
/// taken does not depend on where they first differ.
pub fn tokens_match(expected: &str, presented: &str) -> (matched: bool)
    ensures
        matched == (expected@ == presented@),
{
    let a = expected.as_bytes();
    let b = presented.as_bytes();
    proof {
        vstd::utf8::encode_utf8_decode_utf8(expected@);
        vstd::utf8::encode_utf8_decode_utf8(presented@);
    }
    if a.len() != b.len() {
        return false;
    }
    let mut difference: u8 = 0;
    let mut i: usize = 0;
    while i < a.len()
        invariant
            i <= a@.len(),
            a@.len() == b@.len(),
            (difference == 0) == (forall|j: int| 0 <= j < i ==> a@[j] == b@[j]),
        decreases a@.len() - i,
    {
        let (x, y) = (a[i], b[i]);
        assert(((difference | (x ^ y)) == 0) == (difference == 0 && x == y)) by (bit_vector);
        difference = difference | (x ^ y);
        i = i + 1;
    }
    assert((difference == 0) ==> a@ =~= b@);
    difference == 0
}

/// The two hexadecimal digits of a byte, lowercase.
pub open spec fn hex_digit(n: int) -> char {
    if n < 10 {
        (48 + n) as char
    } else {
        (87 + n) as char
    }
}

/// The lowercase hexadecimal text of bytes, two digits each.
pub open spec fn spec_hex(bytes: Seq<u8>) -> Seq<char>
    decreases bytes.len(),
{
    if bytes.len() == 0 {
        Seq::empty()
    } else {
        spec_hex(bytes.drop_last()).push(hex_digit((bytes.last() / 16) as int)).push(
            hex_digit((bytes.last() % 16) as int),
        )
    }
}

fn hex_char(n: u8) -> (c: char)
    requires
        n < 16,
    ensures
        c == hex_digit(n as int),
{
    if n < 10 {
        (48 + n) as char
    } else {
        (87 + n) as char
    }
}

/// Encodes random bytes as a session token.
pub fn hex_token(bytes: &[u8]) -> (token: String)
    ensures
        token@ == spec_hex(bytes@),
{
    let mut out: Vec<char> = Vec::new();
    let mut i: usize = 0;
    while i < bytes.len()
        invariant
            i <= bytes@.len(),
            out@ == spec_hex(bytes@.take(i as int)),
        decreases bytes@.len() - i,
    {
        let byte = bytes[i];
        out.push(hex_char(byte / 16));
        out.push(hex_char(byte % 16));
        proof {
            let next = bytes@.take(i + 1);
            assert(next.drop_last() =~= bytes@.take(i as int));
            assert(next.last() == byte);
        }
        i = i + 1;
    }
    assert(bytes@.take(bytes@.len() as int) =~= bytes@);
    string_from_chars(out)
}

/// Where the first CRLF of `s` begins, or `s.len()` when there is none.
pub open spec fn first_crlf(s: Seq<char>) -> nat
    decreases s.len(),
{
    if s.len() < 2 {
        s.len()
    } else if s[0] == '\r' && s[1] == '\n' {
        0
    } else {
        1 + first_crlf(s.skip(1))
    }
}

/// A CRLF found in `s` lies wholly within it.
pub proof fn lemma_first_crlf_bound(s: Seq<char>)
    ensures
        first_crlf(s) <= s.len(),
        first_crlf(s) < s.len() ==> first_crlf(s) + 1 < s.len(),
    decreases s.len(),
{
    if s.len() >= 2 && !(s[0] == '\r' && s[1] == '\n') {
        lemma_first_crlf_bound(s.skip(1));
    }
}

/// Returns where the first CRLF of `s[from..to]` begins, as an index into
/// `s`, or `to`.
fn find_crlf(s: &[char], from: usize, to: usize) -> (index: usize)
    requires
        from <= to <= s@.len(),
    ensures
        index == from + first_crlf(s@.subrange(from as int, to as int)),
        from <= index <= to,
        index < to ==> index + 1 < to,
{
    proof {
        lemma_first_crlf_bound(s@.subrange(from as int, to as int));
    }
    let mut i = from;
    while i < to && to - i >= 2 && !(s[i] == '\r' && s[i + 1] == '\n')
        invariant
            from <= i <= to <= s@.len(),
            first_crlf(s@.subrange(from as int, to as int)) == (i - from) + first_crlf(
                s@.subrange(i as int, to as int),
            ),
        decreases to - i,
    {
        assert(s@.subrange(i as int, to as int).skip(1) =~= s@.subrange(i + 1, to as int));
        i = i + 1;
    }
    if i < to && to - i >= 2 {
        return i;
    }
    to
}

/// Whether two texts are equal ignoring ASCII case.
pub open spec fn ascii_eq_ignore_case(a: Seq<char>, b: Seq<char>) -> bool {
    a.len() == b.len() && forall|i: int| 0 <= i < a.len() ==> ascii_lower(a[i]) == ascii_lower(
        b[i],
    )
}

fn lower(c: char) -> (l: char)
    ensures
        l == ascii_lower(c),
{
    if 'A' <= c && c <= 'Z' {
        ((c as u32) + 32) as u8 as char
    } else {
        c
    }
}

/// Whether `s[from..to]` equals `text` ignoring ASCII case.
fn range_eq_ignore_case(s: &[char], from: usize, to: usize, text: &str) -> (eq: bool)
    requires
        from <= to <= s@.len(),
    ensures
        eq == ascii_eq_ignore_case(s@.subrange(from as int, to as int), text@),
{
    let t = chars_of(text);
    if t.len() != to - from {
        return false;
    }
    let mut i: usize = 0;
    while i < t.len()
        invariant
            i <= t@.len(),
            t@ == text@,
            t@.len() == to - from,
            from <= to <= s@.len(),
            forall|j: int| 0 <= j < i ==> ascii_lower(s@[from + j]) == ascii_lower(t@[j]),
        decreases t@.len() - i,
    {
        if lower(s[from + i]) != lower(t[i]) {
            return false;
        }
        i = i + 1;
    }
    true
}

/// Returns the index of the first `c` in `s[from..to]`, or `to`.
fn find_in(s: &[char], from: usize, to: usize, c: char) -> (index: usize)
    requires
        from <= to <= s@.len(),
    ensures
        index == from + first_index_of(s@.subrange(from as int, to as int), c),
        from <= index <= to,
{
    proof {
        lemma_first_index_of(s@.subrange(from as int, to as int), c);
    }
    let mut i = from;
    while i < to && s[i] != c
        invariant
            from <= i <= to <= s@.len(),
            first_index_of(s@.subrange(from as int, to as int), c) == (i - from) + first_index_of(
                s@.subrange(i as int, to as int),
                c,
            ),
        decreases to - i,
    {
        assert(s@.subrange(i as int, to as int).skip(1) =~= s@.subrange(i + 1, to as int));
        i = i + 1;
    }
    i
}

/// The bearer token of one header line: the trimmed text after `Bearer `
/// of a trimmed `Authorization` value (its name compared ignoring ASCII
/// case).
pub open spec fn spec_line_token(line: Seq<char>) -> Option<Seq<char>> {
    let p = first_index_of(line, ':');
    if p >= line.len() {
        None
    } else if ascii_eq_ignore_case(line.take(p as int), "authorization"@) {
        let v = spec_trim(line.skip((p + 1) as int));
        if spec_starts_with(v, "Bearer "@) {
            Some(spec_trim(v.skip(7)))
        } else {
            None
        }
    } else {
        None
    }
}

/// The first bearer token among the header lines of `rest` (the text after
/// the request line), up to the first empty line.
pub open spec fn spec_headers_token(rest: Seq<char>) -> Option<Seq<char>>
    decreases rest.len(),
{
    let e = first_crlf(rest);
    let line = rest.take(e as int);
    if line.len() == 0 {
        None
    } else if spec_line_token(line) is Some {
        spec_line_token(line)
    } else if e >= rest.len() {
        None
    } else {
        proof {
            lemma_first_crlf_bound(rest);
        }
        spec_headers_token(rest.skip((e + 2) as int))
    }
}

/// The value of the first `token=` pair of a query string.
pub open spec fn spec_pairs_token(query: Seq<char>) -> Option<Seq<char>>
    decreases query.len(),
{
    let a = first_index_of(query, '&');
    let pair = query.take(a as int);
    let e = first_index_of(pair, '=');
    if e < pair.len() && pair.take(e as int) == "token"@ {
        Some(pair.skip((e + 1) as int))
    } else if a >= query.len() {
        None
    } else {
        spec_pairs_token(query.skip((a + 1) as int))
    }
}

/// The token of the query string of a request line's target.
pub open spec fn spec_query_token(line: Seq<char>) -> Option<Seq<char>> {
    let p = first_index_of(line, ' ');
    if p >= line.len() {
        None
    } else {
        let rest = line.skip((p + 1) as int);
        let target = rest.take(first_index_of(rest, ' ') as int);
        let q = first_index_of(target, '?');
        if q >= target.len() {
            None
        } else {
            spec_pairs_token(target.skip((q + 1) as int))
        }
    }
}

/// The token a request presents: a bearer `Authorization` header, or else
/// a `token` query parameter of the request target.
pub open spec fn spec_presented_token(request: Seq<char>) -> Option<Seq<char>> {
    let k = first_crlf(request);
    let header = if k < request.len() {
        spec_headers_token(request.skip((k + 2) as int))
    } else {
        None
    };
    match header {
        Some(t) => Some(t),
        None => spec_query_token(request.take(k as int)),
    }
}

/// The bearer token of the header line `s[from..to]`, as a range of `s`.
fn line_token(s: &[char], from: usize, to: usize) -> (range: Option<(usize, usize)>)
    requires
        from <= to <= s@.len(),
    ensures
        match spec_line_token(s@.subrange(from as int, to as int)) {
            Some(t) => range matches Some((a, b)) && a <= b <= s@.len() && s@.subrange(
                a as int,
                b as int,
            ) == t,
            None => range is None,
        },
{
    let ghost line = s@.subrange(from as int, to as int);
    let p = find_in(s, from, to, ':');
    if p >= to {
        return None;
    }
    assert(line.take((p - from) as int) =~= s@.subrange(from as int, p as int));
    if !range_eq_ignore_case(s, from, p, "authorization") {
        return None;
    }
    assert(line.skip((p - from) + 1) =~= s@.subrange(p + 1, to as int));
    let (va, vb) = trim_range(s, p + 1, to);
    let ghost v = s@.subrange(va as int, vb as int);
    proof {
        reveal_strlit("Bearer ");
    }
    if vb - va < 7 || !range_eq(s, va, va + 7, "Bearer ") {
        proof {
            if spec_starts_with(v, "Bearer "@) {
                assert(v.take(7) =~= s@.subrange(va as int, va + 7));
            }
        }
        return None;
    }
    assert(v.take(7) =~= s@.subrange(va as int, va + 7));
    assert(v.skip(7) =~= s@.subrange(va + 7, vb as int));
    let (ta, tb) = trim_range(s, va + 7, vb);
    Some((ta, tb))
}

/// The first bearer token among the header lines of `s[from..]`.
fn headers_token(s: &[char], from: usize) -> (range: Option<(usize, usize)>)
    requires
        from <= s@.len(),
    ensures
        match spec_headers_token(s@.skip(from as int)) {
            Some(t) => range matches Some((a, b)) && a <= b <= s@.len() && s@.subrange(
                a as int,
                b as int,
            ) == t,
            None => range is None,
        },
{
    let n = s.len();
    let mut pos = from;
    while pos <= n
        invariant
            from <= pos <= n,
            n == s@.len(),
            spec_headers_token(s@.skip(from as int)) == spec_headers_token(s@.skip(pos as int)),
        decreases n - pos,
    {
        let ghost rest = s@.skip(pos as int);
        assert(rest =~= s@.subrange(pos as int, n as int));
        let e = find_crlf(s, pos, n);
        assert(rest.take((e - pos) as int) =~= s@.subrange(pos as int, e as int));
        if e == pos {
            return None;
        }
        match line_token(s, pos, e) {
            Some(range) => {
                return Some(range);
            },
            None => {},
        }
        if e >= n {
            return None;
        }
        assert(rest.skip((e - pos) + 2) =~= s@.skip((e + 2) as int));
        pos = e + 2;
    }
    None
}

/// The value of the first `token=` pair of the query `s[from..to]`.
fn pairs_token(s: &[char], from: usize, to: usize) -> (range: Option<(usize, usize)>)
    requires
        from <= to <= s@.len(),
    ensures
        match spec_pairs_token(s@.subrange(from as int, to as int)) {
            Some(t) => range matches Some((a, b)) && a <= b <= s@.len() && s@.subrange(
                a as int,
                b as int,
            ) == t,
            None => range is None,
        },
{
    proof {
        reveal_strlit("token");
    }
    let mut pos = from;
    while pos <= to
        invariant
            from <= pos <= to <= s@.len(),
            spec_pairs_token(s@.subrange(from as int, to as int)) == spec_pairs_token(
                s@.subrange(pos as int, to as int),
            ),
        decreases to - pos,
    {
        let ghost query = s@.subrange(pos as int, to as int);
        let a = find_in(s, pos, to, '&');
        let ghost pair = query.take((a - pos) as int);
        assert(pair =~= s@.subrange(pos as int, a as int));
        let e = find_in(s, pos, a, '=');
        if e < a {
            assert(pair.take((e - pos) as int) =~= s@.subrange(pos as int, e as int));
            if range_eq(s, pos, e, "token") {
                assert(pair.skip((e - pos) + 1) =~= s@.subrange(e + 1, a as int));
                return Some((e + 1, a));
            }
        }
        if a >= to {
            return None;
        }
        assert(query.skip((a - pos) + 1) =~= s@.subrange(a + 1, to as int));
        pos = a + 1;
    }
    None
}

/// The token of the query string of the request line `s[0..to]`.
fn query_token(s: &[char], to: usize) -> (range: Option<(usize, usize)>)
    requires
        to <= s@.len(),
    ensures
        match spec_query_token(s@.subrange(0, to as int)) {
            Some(t) => range matches Some((a, b)) && a <= b <= s@.len() && s@.subrange(
                a as int,
                b as int,
            ) == t,
            None => range is None,
        },
{
    let ghost line = s@.subrange(0, to as int);
    let p = find_in(s, 0, to, ' ');
    if p >= to {
        return None;
    }
    let ghost rest = line.skip((p + 1) as int);
    assert(rest =~= s@.subrange(p + 1, to as int));
    let end = find_in(s, p + 1, to, ' ');
    let ghost target = rest.take((end - p - 1) as int);
    assert(target =~= s@.subrange(p + 1, end as int));
    let q = find_in(s, p + 1, end, '?');
    if q >= end {
        return None;
    }
    assert(target.skip((q - p - 1) + 1) =~= s@.subrange(q + 1, end as int));
    pairs_token(s, q + 1, end)
}

/// Extracts the token a request presents: a bearer `Authorization` header
/// before the first empty line, or else a `token` query parameter.
pub fn presented_token(request: &str) -> (token: Option<&str>)
    ensures
        match spec_presented_token(request@) {
            Some(t) => token matches Some(found) && found@ == t,
            None => token is None,
        },
{
    let s = chars_of(request);
    let n = s.len();
    let k = find_crlf(s.as_slice(), 0, n);
    assert(s@.subrange(0, n as int) =~= s@);
    let header = if k < n {
        headers_token(s.as_slice(), k + 2)
    } else {
        None
    };
    let range = match header {
        Some(range) => Some(range),
        None => {
            assert(s@.take(k as int) =~= s@.subrange(0, k as int));
            query_token(s.as_slice(), k)
        },
    };
    match range {
        Some((a, b)) => Some(request.substring_char(a, b)),
        None => None,
    }
}

/// Whether a request may be served: always without a session token, and
/// otherwise only when its text is UTF-8 and presents that token.
pub fn authorized(request: &[u8], token: Option<&str>) -> (allowed: bool)
    ensures
        allowed == match token {
            None => true,
            Some(expected) => valid_utf8(request@) && spec_presented_token(decode_utf8(request@))
                == Some(expected@),
        },
{
    match token {
        None => true,
        Some(expected) => match utf8_text(request) {
            None => false,
            Some(text) => {
                proof {
                    vstd::utf8::encode_utf8_decode_utf8(text@);
                    vstd::utf8::encode_utf8_valid_utf8(text@);
                }
                match presented_token(text) {
                    Some(presented) => tokens_match(expected, presented),
                    None => false,
                }
            },
        },
    }
}

/// Where the header of a request ends (just after its first blank line),
/// if it has ended.
pub open spec fn spec_header_end(request: Seq<u8>) -> Option<int>
    decreases request.len(),
{
    if request.len() < 4 {
        None
    } else if request[0] == 13 && request[1] == 10 && request[2] == 13 && request[3] == 10 {
        Some(4)
    } else {
        match spec_header_end(request.skip(1)) {
            Some(p) => Some(p + 1),
            None => None,
        }
    }
}

proof fn lemma_header_end_bound(request: Seq<u8>)
    ensures
        spec_header_end(request) matches Some(p) ==> 4 <= p <= request.len(),
    decreases request.len(),
{
    if request.len() >= 4 {
        lemma_header_end_bound(request.skip(1));
    }
}

/// Returns where the header of a request ends, if it has ended.
pub fn header_end(request: &[u8]) -> (end: Option<usize>)
    ensures
        match spec_header_end(request@) {
            Some(p) => end == Some(p as usize),
            None => end is None,
        },
        end matches Some(p) ==> 4 <= p <= request@.len(),
        spec_header_end(request@) matches Some(p) ==> 4 <= p <= request@.len(),
{
    proof {
        lemma_header_end_bound(request@);
    }
    let n = request.len();
    let mut i: usize = 0;
    assert(request@.skip(0) =~= request@);
    while i < n && n - i >= 4
        invariant
            i <= n,
            n == request@.len(),
            spec_header_end(request@) == match spec_header_end(request@.skip(i as int)) {
                Some(p) => Some(p + i),
                None => None::<int>,
            },
        decreases n - i,
    {
        if request[i] == 13 && request[i + 1] == 10 && request[i + 2] == 13 && request[i + 3] == 10 {
            return Some(i + 4);
        }
        assert(request@.skip(i as int).skip(1) =~= request@.skip(i + 1));
        i = i + 1;
    }
    None
}

/// The declared content length of the header lines in `rest` (the text
/// after the request line): the first `Content-Length` line's trimmed value
/// as a `usize`, zero when there is none; empty lines are passed over, and
/// a line without `:` makes the header malformed.
pub open spec fn spec_content_length(rest: Seq<char>) -> Result<int, WebRequestError>
    decreases rest.len(),
{
    let e = first_crlf(rest);
    let line = rest.take(e as int);
    let p = first_index_of(line, ':');
    if line.len() > 0 && p >= line.len() {
        Err(WebRequestError::Malformed)
    } else if line.len() > 0 && ascii_eq_ignore_case(line.take(p as int), "content-length"@) {
        match spec_parse_int(spec_trim(line.skip((p + 1) as int)), 0, usize::MAX as int) {
            Ok(v) => Ok(v),
            Err(_) => Err(WebRequestError::InvalidContentLength),
        }
    } else if e >= rest.len() {
        Ok(0)
    } else {
        proof {
            lemma_first_crlf_bound(rest);
        }
        spec_content_length(rest.skip((e + 2) as int))
    }
}

/// A declared content length fits in a `usize`.
proof fn lemma_content_length_bounds(rest: Seq<char>)
    ensures
        spec_content_length(rest) matches Ok(v) ==> 0 <= v <= usize::MAX,
    decreases rest.len(),
{
    let e = first_crlf(rest);
    let line = rest.take(e as int);
    let p = first_index_of(line, ':');
    crate::text::lemma_parse_int_bounds(spec_trim(line.skip((p + 1) as int)), 0, usize::MAX as int);
    lemma_first_crlf_bound(rest);
    if e < rest.len() {
        lemma_content_length_bounds(rest.skip((e + 2) as int));
    }
}

/// The declared content length of a header: that of its lines after the
/// request line, refused when the header is not UTF-8.
pub open spec fn spec_declared_content_length(header: Seq<u8>) -> Result<int, WebRequestError> {
    if !valid_utf8(header) {
        Err(WebRequestError::NotUtf8)
    } else {
        let s = decode_utf8(header);
        let k = first_crlf(s);
        if k >= s.len() {
            Ok(0)
        } else {
            spec_content_length(s.skip((k + 2) as int))
        }
    }
}

/// The declared content length of the header lines from `s[from..]`.
fn content_length(s: &[char], from: usize) -> (result: Result<usize, WebRequestError>)
    requires
        from <= s@.len(),
    ensures
        match spec_content_length(s@.skip(from as int)) {
            Ok(v) => result == Ok::<usize, WebRequestError>(v as usize),
            Err(e) => result == Err::<usize, WebRequestError>(e),
        },
{
    proof {
        reveal_strlit("content-length");
    }
    let n = s.len();
    let mut pos = from;
    while pos <= n
        invariant
            from <= pos <= n,
            n == s@.len(),
            spec_content_length(s@.skip(from as int)) == spec_content_length(s@.skip(pos as int)),
        decreases n - pos,
    {
        let ghost rest = s@.skip(pos as int);
        assert(rest =~= s@.subrange(pos as int, n as int));
        let e = find_crlf(s, pos, n);
        let ghost line = rest.take((e - pos) as int);
        assert(line =~= s@.subrange(pos as int, e as int));
        if e > pos {
            let p = find_in(s, pos, e, ':');
            if p >= e {
                return Err(WebRequestError::Malformed);
            }
            assert(line.take((p - pos) as int) =~= s@.subrange(pos as int, p as int));
            if range_eq_ignore_case(s, pos, p, "content-length") {
                assert(line.skip((p - pos) + 1) =~= s@.subrange(p + 1, e as int));
                let (va, vb) = trim_range(s, p + 1, e);
                proof {
                    assert((usize::MAX as u64) as int == usize::MAX as int);
                    crate::text::lemma_parse_int_bounds(
                        s@.subrange(va as int, vb as int),
                        0,
                        usize::MAX as int,
                    );
                }
                return match parse_unsigned(s, va, vb, usize::MAX as u64) {
                    Ok(v) => Ok(v as usize),
                    Err(_) => Err(WebRequestError::InvalidContentLength),
                };
            }
        }
        if e >= n {
            return Ok(0);
        }
        assert(rest.skip((e - pos) + 2) =~= s@.skip((e + 2) as int));
        pos = e + 2;
    }
    Ok(0)
}

/// Returns the content length that a request header declares.
pub fn declared_content_length(header: &[u8]) -> (result: Result<usize, WebRequestError>)
    ensures
        match spec_declared_content_length(header@) {
            Ok(v) => result matches Ok(n) && n == v,
            Err(e) => result == Err::<usize, WebRequestError>(e),
        },
{
    let text = match utf8_text(header) {
        Some(text) => text,
        None => {
            return Err(WebRequestError::NotUtf8);
        },
    };
    proof {
        vstd::utf8::encode_utf8_decode_utf8(text@);
        vstd::utf8::encode_utf8_valid_utf8(text@);
    }
    let s = chars_of(text);
    let n = s.len();
    let k = find_crlf(s.as_slice(), 0, n);
    assert(s@.subrange(0, n as int) =~= s@);
    if k >= n {
        return Ok(0);
    }
    proof {
        lemma_content_length_bounds(s@.skip(k + 2));
    }
    content_length(s.as_slice(), k + 2)
}

/// Whether a request read so far is complete: refused beyond `limit` bytes;
/// incomplete until its header has ended; then complete once the declared
/// body has arrived.
pub fn request_complete(request: &[u8], limit: usize) -> (result: Result<bool, WebRequestError>)
    ensures
        request@.len() > limit ==> result == Err::<bool, WebRequestError>(WebRequestError::TooLarge),
        request@.len() <= limit ==> match spec_header_end(request@) {
            None => result == Ok::<bool, WebRequestError>(false),
            Some(end) => match spec_declared_content_length(request@.take(end)) {
                Err(e) => result == Err::<bool, WebRequestError>(e),
                Ok(length) => result == Ok::<bool, WebRequestError>(
                    request@.len() >= if end + length > usize::MAX {
                        usize::MAX as int
                    } else {
                        end + length
                    },
                ),
            },
        },
{
    if request.len() > limit {
        return Err(WebRequestError::TooLarge);
    }
    match header_end(request) {
        None => Ok(false),
        Some(end) => {
            let head = slice_prefix(request, end);
            match declared_content_length(head) {
                Err(e) => Err(e),
                Ok(length) => {
                    let needed = if length > usize::MAX - end {
                        usize::MAX
                    } else {
                        end + length
                    };
                    Ok(request.len() >= needed)
                },
            }
        },
    }
}

/// The first `end` bytes of a slice.
fn slice_prefix(bytes: &[u8], end: usize) -> (prefix: &[u8])
    requires
        end <= bytes@.len(),
    ensures
        prefix@ == bytes@.take(end as int),
{
    let (prefix, _) = bytes.split_at(end);
    prefix
}

/// The text of a complete response: the status line, the content type, the
/// body's length (`body_bytes`, its size in UTF-8 bytes), no caching, and a
/// closed connection.
pub open spec fn spec_response(
    status: Seq<char>,
    content_type: Seq<char>,
    body: Seq<char>,
    body_bytes: nat,
) -> Seq<char> {
    "HTTP/1.1 "@ + status + "\r\nContent-Type: "@ + content_type + "\r\nContent-Length: "@
        + spec_decimal(body_bytes) + "\r\nCache-Control: no-store\r\nConnection: close\r\n\r\n"@
        + body
}

/// Builds a complete response.
pub fn response(status: &str, content_type: &str, body: &str) -> (text: String)
    ensures
        text@ == spec_response(status@, content_type@, body@, body.len() as nat),
{
    let mut out: Vec<char> = Vec::new();
    push_str(&mut out, "HTTP/1.1 ");
    push_str(&mut out, status);
    push_str(&mut out, "\r\nContent-Type: ");
    push_str(&mut out, content_type);
    push_str(&mut out, "\r\nContent-Length: ");
    let length = body.len();
    push_decimal(&mut out, length as u128);
    push_str(&mut out, "\r\nCache-Control: no-store\r\nConnection: close\r\n\r\n");
    push_str(&mut out, body);
    assert(out@ =~= spec_response(status@, content_type@, body@, length as nat));
    string_from_chars(out)
}

/// What the frontend's command line asks for.
#[derive(Debug, PartialEq, Eq)]
pub enum WebCommand {
    /// Print the usage text and exit.
    Help,
    /// Serve on `bind_address`; `once` serves a single request; `authenticate`
    /// requires the session token.
    Serve { bind_address: String, once: bool, authenticate: bool },
}

/// The command that the arguments from `i` on ask for, given the choices
/// made by those before.
pub open spec fn spec_web_command(
    args: Seq<Seq<char>>,
    i: int,
    bind_address: Seq<char>,
    once: bool,
    authenticate: bool,
) -> Result<Option<(Seq<char>, bool, bool)>, Seq<char>>
    decreases args.len() - i,
{
    if i >= args.len() {
        Ok(Some((bind_address, once, authenticate)))
    } else {
        let arg = args[i];
        if arg == "--once"@ {
            spec_web_command(args, i + 1, bind_address, true, authenticate)
        } else if arg == "--no-auth"@ {
            spec_web_command(args, i + 1, bind_address, once, false)
        } else if arg == "--bind"@ {
            if i + 1 >= args.len() {
                Err("--bind requires an address"@)
            } else {
                spec_web_command(args, i + 2, args[i + 1], once, authenticate)
            }
        } else if arg == "--help"@ || arg == "-h"@ {
            Ok(None)
        } else {
            Err("unknown argument "@ + arg)
        }
    }
}

/// Reads the frontend's command-line arguments (without the program name).
pub fn parse_web_arguments(args: &Vec<String>) -> (result: Result<WebCommand, String>)
    ensures
        match spec_web_command(
            args@.map_values(|a: String| a@),
            0,
            DEFAULT_BIND_ADDRESS@,
            false,
            true,
        ) {
            Ok(Some((bind, once, authenticate))) => result matches Ok(
                WebCommand::Serve { bind_address: b, once: o, authenticate: a },
            ) && b@ == bind && o == once && a == authenticate,
            Ok(None) => result matches Ok(WebCommand::Help),
            Err(message) => result matches Err(m) && m@ == message,
        },
{
    let ghost views = args@.map_values(|a: String| a@);
    let mut bind_address = DEFAULT_BIND_ADDRESS.to_owned();
    let mut once = false;
    let mut authenticate = true;
    let mut i: usize = 0;
    proof {
        reveal_strlit("--once");
        reveal_strlit("--no-auth");
        reveal_strlit("--bind");
        reveal_strlit("--help");
        reveal_strlit("-h");
    }
    while i < args.len()
        invariant
            i <= args@.len(),
            views == args@.map_values(|a: String| a@),
            spec_web_command(views, 0, DEFAULT_BIND_ADDRESS@, false, true) == spec_web_command(
                views,
                i as int,
                bind_address@,
                once,
                authenticate,
            ),
        decreases args@.len() - i,
    {
        let arg = args[i].as_str();
        assert(views[i as int] == arg@);
        if crate::text::str_eq(arg, "--once") {
            once = true;
            i = i + 1;
        } else if crate::text::str_eq(arg, "--no-auth") {
            authenticate = false;
            i = i + 1;
        } else if crate::text::str_eq(arg, "--bind") {
            if i + 1 >= args.len() {
                return Err("--bind requires an address".to_owned());
            }
            bind_address = args[i + 1].clone();
            assert(views[i + 1] == args@[i + 1]@);
            i = i + 2;
        } else if crate::text::str_eq(arg, "--help") || crate::text::str_eq(arg, "-h") {
            return Ok(WebCommand::Help);
        } else {
            let mut out: Vec<char> = Vec::new();
            push_str(&mut out, "unknown argument ");
            push_str(&mut out, arg);
            return Err(string_from_chars(out));
        }
    }
    Ok(WebCommand::Serve { bind_address, once, authenticate })
}

/// The command summary that the frontend serves for `help`.
pub fn help_text() -> (text: String)
    ensures
        text@ == "Commands:\n  show | snapshot\n  preview <scene-id>\n  program <scene-id>\n  profile <profile-id>\n  swap\n  transition cut | transition fade <0..1000>\n  take cut | take fade <0..1000>\n  language en|es\n  record start|stop\n  stream start|stop\n  help"@,
{
    "Commands:\n  show | snapshot\n  preview <scene-id>\n  program <scene-id>\n  profile <profile-id>\n  swap\n  transition cut | transition fade <0..1000>\n  take cut | take fade <0..1000>\n  language en|es\n  record start|stop\n  stream start|stop\n  help".to_owned()
}

/// The lines of the terminal frontend's command summary.
pub fn console_help_lines() -> (lines: Vec<&'static str>)
    ensures
        lines@.len() == 12,
        lines@[0]@ == "Commands:"@,
        lines@[1]@ == "  show | snapshot"@,
        lines@[2]@ == "  preview <scene-id>"@,
        lines@[3]@ == "  program <scene-id>"@,
        lines@[4]@ == "  profile <profile-id>"@,
        lines@[5]@ == "  swap"@,
        lines@[6]@ == "  transition cut | transition fade <0..1000>"@,
        lines@[7]@ == "  take cut | take fade <0..1000>"@,
        lines@[8]@ == "  language en|es"@,
        lines@[9]@ == "  record start|stop"@,
        lines@[10]@ == "  stream start|stop"@,
        lines@[11]@ == "  help | quit"@,
{
    vec![
        "Commands:",
        "  show | snapshot",
        "  preview <scene-id>",
        "  program <scene-id>",
        "  profile <profile-id>",
        "  swap",
        "  transition cut | transition fade <0..1000>",
        "  take cut | take fade <0..1000>",
        "  language en|es",
        "  record start|stop",
        "  stream start|stop",
        "  help | quit",
    ]
}

} // verus!
