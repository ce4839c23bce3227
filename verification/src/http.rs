//! Reading raw HTTP/1.1 responses of the Ollama service.
//!
//! A response is split at its first blank line into head and body; the
//! status is the second whitespace-separated word of the head, and a body
//! sent with `Transfer-Encoding: chunked` is reassembled from its chunks.

use vstd::prelude::*;
use vstd::slice::slice_subrange;
use vstd::string::StrSliceExecFns;
use vstd::string::StringExecFns;
use vstd::string::StringSliceAdditionalSpecFns;
use vstd::utf8::{decode_utf8, encode_utf8, valid_utf8};
use crate::ollama::{starts_with, HttpMethod, OllamaError, OllamaRequest, OllamaResponse};
use crate::text::{
    chars_match, chars_of, decimal_spec, find_char, push_decimal, int_error_message, is_space, is_space_char, lemma_parse_radix_bounds,
    lines_spec, parse_radix,
    parse_radix_spec, prefix_before, split_lines, trim_bounds, trim_spec, views_of,
};

verus! {

/// The message `core::str::Utf8Error` displays for bytes that are not UTF-8.
pub uninterp spec fn utf8_error_text(bytes: Seq<u8>) -> Seq<char>;

/// Text of UTF-8 bytes, read through `core::str::from_utf8`: the text of
/// the bytes when they are UTF-8, else the message of the `Utf8Error`.
/// `String::from_utf8` reports the same message for the same bytes.
#[verifier::external_body]
fn utf8_text(bytes: &[u8]) -> (r: core::result::Result<String, String>)
    ensures
        r is Ok <==> valid_utf8(bytes@),
        r matches Ok(s) ==> s@ == decode_utf8(bytes@),
        r matches Err(m) ==> m@ == utf8_error_text(bytes@),
{
    match core::str::from_utf8(bytes) {
        Ok(text) => Ok(text.to_owned()),
        Err(error) => Err(error.to_string()),
    }
}

/// `\r\n\r\n` starts at `i`.
pub open spec fn blank_line_at(s: Seq<char>, i: int) -> bool {
    0 <= i && i + 4 <= s.len() && s[i] == '\r' && s[i + 1] == '\n' && s[i + 2] == '\r' && s[i
        + 3] == '\n'
}

/// First position at or after `i` where `\r\n\r\n` starts.
pub open spec fn find_blank_line(s: Seq<char>, i: int) -> Option<int>
    decreases s.len() - i,
{
    if i < 0 || i + 4 > s.len() {
        None
    } else if blank_line_at(s, i) {
        Some(i)
    } else {
        find_blank_line(s, i + 1)
    }
}

/// `find_blank_line` finds a blank line within the text.
pub proof fn lemma_find_blank_line(s: Seq<char>, i: int)
    ensures
        find_blank_line(s, i) matches Some(j) ==> i <= j && j + 4 <= s.len() && blank_line_at(
            s,
            j,
        ),
    decreases s.len() - i,
{
    if i >= 0 && i + 4 <= s.len() && !blank_line_at(s, i) {
        lemma_find_blank_line(s, i + 1);
    }
}

/// First position at or after `i` that holds no whitespace.
pub open spec fn skip_spaces(s: Seq<char>, i: int) -> int
    decreases s.len() - i,
{
    if 0 <= i < s.len() && is_space(s[i]) {
        skip_spaces(s, i + 1)
    } else {
        i
    }
}

/// First position at or after `i` that holds whitespace.
pub open spec fn skip_word(s: Seq<char>, i: int) -> int
    decreases s.len() - i,
{
    if 0 <= i < s.len() && !is_space(s[i]) {
        skip_word(s, i + 1)
    } else {
        i
    }
}

/// The second whitespace-separated word of the head: the status code.
pub open spec fn status_token_spec(head: Seq<char>) -> Option<Seq<char>> {
    let a = skip_spaces(head, 0);
    if a >= head.len() {
        None
    } else {
        let c = skip_spaces(head, skip_word(head, a));
        if c >= head.len() {
            None
        } else {
            Some(head.subrange(c, skip_word(head, c)))
        }
    }
}

/// `c` equals the lowercase character `lower` when ASCII case is ignored.
pub open spec fn char_eq_ignore_case(c: char, lower: char) -> bool {
    c == lower || ('A' <= c <= 'Z' && (c as u32) + 32 == (lower as u32))
}

/// `a` equals `lower`, which holds no uppercase letter, when ASCII case is
/// ignored.
pub open spec fn eq_ignore_ascii_case(a: Seq<char>, lower: Seq<char>) -> bool {
    a.len() == lower.len() && forall|i: int| 0 <= i < a.len() ==> char_eq_ignore_case(
        #[trigger] a[i],
        lower[i],
    )
}

/// One of the comma-separated encodings of a header value is `chunked`.
pub open spec fn value_has_chunked(v: Seq<char>) -> bool
    decreases v.len(),
{
    let k = prefix_before(v, ',');
    if eq_ignore_ascii_case(trim_spec(v.take(k)), "chunked"@) {
        true
    } else if k < 0 || k >= v.len() {
        false
    } else {
        value_has_chunked(v.skip(k + 1))
    }
}

/// The header line is a `Transfer-Encoding` field naming `chunked`.
pub open spec fn line_is_chunked(line: Seq<char>) -> bool {
    let c = prefix_before(line, ':');
    c < line.len() && eq_ignore_ascii_case(line.take(c), "transfer-encoding"@) && value_has_chunked(
        line.skip(c + 1),
    )
}

/// One of the lines `i..` is a chunked `Transfer-Encoding` field.
pub open spec fn any_line_chunked(lines: Seq<Seq<char>>, i: int) -> bool
    decreases lines.len() - i,
{
    if i < 0 || i >= lines.len() {
        false
    } else if line_is_chunked(lines[i]) {
        true
    } else {
        any_line_chunked(lines, i + 1)
    }
}

/// The head declares a chunked body. Lines are split at `\n`; a `\r` ending
/// a line stays in the last encoding of its value, whose trim removes it.
pub open spec fn is_chunked_spec(head: Seq<char>) -> bool {
    any_line_chunked(lines_spec(head), 0)
}

/// First position at or after `i` where `\r\n` starts.
pub open spec fn crlf_from(b: Seq<u8>, i: int) -> Option<int>
    decreases b.len() - i,
{
    if i < 0 || i + 2 > b.len() {
        None
    } else if b[i] == 13 && b[i + 1] == 10 {
        Some(i)
    } else {
        crlf_from(b, i + 1)
    }
}

/// `crlf_from` finds the first `\r\n` at or after `i`.
pub proof fn lemma_crlf_from(b: Seq<u8>, i: int)
    requires
        0 <= i,
    ensures
        crlf_from(b, i) matches Some(e) ==> i <= e && e + 2 <= b.len() && b[e] == 13 && b[e + 1]
            == 10,
        crlf_from(b, i) matches Some(e) ==> forall|k: int|
            i <= k < e ==> !(#[trigger] b[k] == 13 && b[k + 1] == 10),
        crlf_from(b, i) is None ==> forall|k: int|
            i <= k && k + 2 <= b.len() ==> !(#[trigger] b[k] == 13 && b[k + 1] == 10),
    decreases b.len() - i,
{
    if i >= 0 && i + 2 <= b.len() && !(b[i] == 13 && b[i + 1] == 10) {
        lemma_crlf_from(b, i + 1);
    }
}

/// Decoding chunks from byte `pos` on, with `acc` the bytes decoded so far:
/// the decoded text, or the message of the first problem.
pub open spec fn chunked_spec(b: Seq<u8>, pos: int, acc: Seq<u8>) -> Result<Seq<char>, Seq<char>>
    decreases b.len() - pos,
{
    match crlf_from(b, pos) {
        None => Err("chunked response is missing a chunk-size line ending"@),
        Some(le) => {
            let line = b.subrange(pos, le);
            if !valid_utf8(line) {
                Err(utf8_error_text(line))
            } else {
                let text = decode_utf8(line);
                let size_text = trim_spec(text.take(prefix_before(text, ';')));
                match parse_radix_spec(size_text, 16, usize::MAX as int) {
                    Err(k) => Err(int_error_message(k)),
                    Ok(size) => {
                        let p = le + 2;
                        if size == 0 {
                            if valid_utf8(acc) {
                                Ok(decode_utf8(acc))
                            } else {
                                Err(utf8_error_text(acc))
                            }
                        } else if p + size > usize::MAX {
                            Err("chunked response size overflows address space"@)
                        } else if p + size + 2 > usize::MAX {
                            Err("chunked response terminator overflows address space"@)
                        } else if p + size + 2 > b.len() || b[p + size] != 13 || b[p + size + 1]
                            != 10 {
                            Err("chunked response has an incomplete chunk or invalid terminator"@)
                        } else {
                            proof {
                                if pos >= 0 {
                                    lemma_crlf_from(b, pos);
                                }
                                lemma_parse_radix_bounds(size_text, 16, usize::MAX as int);
                            }
                            chunked_spec(b, p + size + 2, acc + b.subrange(p, p + size))
                        }
                    },
                }
            }
        },
    }
}

/// Status and body of a parsed response.
pub struct HttpParts {
    /// Status code.
    pub status: u16,
    /// Body text.
    pub body: Seq<char>,
}

/// What a raw response holds: its status and (dechunked) body, or the
/// message of the first problem.
pub open spec fn parse_http_spec(r: Seq<char>) -> Result<HttpParts, Seq<char>> {
    match find_blank_line(r, 0) {
        None => Err("HTTP response is missing a header boundary"@),
        Some(i) => {
            let head = r.take(i);
            let raw = r.skip(i + 4);
            match status_token_spec(head) {
                None => Err("HTTP response is missing a status"@),
                Some(tok) => match parse_radix_spec(tok, 10, 65535) {
                    Err(k) => Err(int_error_message(k)),
                    Ok(status) => if is_chunked_spec(head) {
                        match chunked_spec(encode_utf8(raw), 0, Seq::empty()) {
                            Err(m) => Err(m),
                            Ok(body) => Ok(HttpParts { status: status as u16, body }),
                        }
                    } else {
                        Ok(HttpParts { status: status as u16, body: raw })
                    },
                },
            }
        },
    }
}

fn decode_error(message: &str) -> (e: OllamaError)
    ensures
        e matches OllamaError::Decode(s) && s@ == message@,
{
    OllamaError::Decode(String::from_str(message))
}

/// Position of the first `\r\n` at or after `start`.
pub fn find_crlf(bytes: &[u8], start: usize) -> (r: Option<usize>)
    requires
        start <= bytes@.len(),
    ensures
        match crlf_from(bytes@, start as int) {
            Some(e) => r == Some(e as usize),
            None => r is None,
        },
{
    let mut i = start;
    while i < bytes.len() && bytes.len() - i >= 2
        invariant
            start <= i <= bytes@.len(),
            crlf_from(bytes@, start as int) == crlf_from(bytes@, i as int),
        decreases bytes.len() - i,
    {
        if bytes[i] == 13 && bytes[i + 1] == 10 {
            return Some(i);
        }
        i += 1;
    }
    None
}

fn find_blank_line_exec(chars: &[char]) -> (r: Option<usize>)
    ensures
        match find_blank_line(chars@, 0) {
            Some(i) => r == Some(i as usize),
            None => r is None,
        },
{
    let mut i: usize = 0;
    while i < chars.len() && chars.len() - i >= 4
        invariant
            i <= chars@.len(),
            find_blank_line(chars@, 0) == find_blank_line(chars@, i as int),
        decreases chars.len() - i,
    {
        if chars[i] == '\r' && chars[i + 1] == '\n' && chars[i + 2] == '\r' && chars[i + 3]
            == '\n' {
            return Some(i);
        }
        i += 1;
    }
    None
}

fn skip_spaces_exec(chars: &[char], from: usize) -> (r: usize)
    requires
        from <= chars@.len(),
    ensures
        r == skip_spaces(chars@, from as int),
        from <= r <= chars@.len(),
{
    let mut i = from;
    while i < chars.len() && is_space_char(chars[i])
        invariant
            from <= i <= chars@.len(),
            skip_spaces(chars@, from as int) == skip_spaces(chars@, i as int),
        decreases chars.len() - i,
    {
        i += 1;
    }
    i
}

fn skip_word_exec(chars: &[char], from: usize) -> (r: usize)
    requires
        from <= chars@.len(),
    ensures
        r == skip_word(chars@, from as int),
        from <= r <= chars@.len(),
{
    let mut i = from;
    while i < chars.len() && !is_space_char(chars[i])
        invariant
            from <= i <= chars@.len(),
            skip_word(chars@, from as int) == skip_word(chars@, i as int),
        decreases chars.len() - i,
    {
        i += 1;
    }
    i
}

fn eq_ignore_case_range(chars: &[char], lo: usize, hi: usize, lower: &[char]) -> (same: bool)
    requires
        lo <= hi <= chars@.len(),
    ensures
        same == eq_ignore_ascii_case(chars@.subrange(lo as int, hi as int), lower@),
{
    let ghost a = chars@.subrange(lo as int, hi as int);
    if hi - lo != lower.len() {
        return false;
    }
    let mut i: usize = 0;
    while i < lower.len()
        invariant
            lo <= hi <= chars@.len(),
            hi - lo == lower@.len(),
            a == chars@.subrange(lo as int, hi as int),
            i <= lower@.len(),
            forall|j: int| 0 <= j < i ==> char_eq_ignore_case(#[trigger] a[j], lower@[j]),
        decreases lower.len() - i,
    {
        let c = chars[lo + i];
        let l = lower[i];
        assert(a[i as int] == c);
        let upper_match = 'A' <= c && c <= 'Z' && (c as u32) + 32 == (l as u32);
        if !(c == l || upper_match) {
            assert(!char_eq_ignore_case(a[i as int], lower@[i as int]));
            return false;
        }
        assert(char_eq_ignore_case(a[i as int], lower@[i as int]));
        i += 1;
    }
    true
}

fn value_has_chunked_exec(chars: &[char], from: usize, chunked: &[char]) -> (r: bool)
    requires
        from <= chars@.len(),
        chunked@ == "chunked"@,
    ensures
        r == value_has_chunked(chars@.subrange(from as int, chars@.len() as int)),
{
    let n = chars.len();
    let mut s = from;
    while s <= n
        invariant
            from <= s <= n,
            n == chars@.len(),
            chunked@ == "chunked"@,
            value_has_chunked(chars@.subrange(from as int, n as int)) == value_has_chunked(
                chars@.subrange(s as int, n as int),
            ),
        decreases n - s,
    {
        let ghost v = chars@.subrange(s as int, n as int);
        let k = find_char(chars, s, n, ',');
        let (a, b) = trim_bounds(chars, s, k);
        proof {
            assert(v.take(k - s) =~= chars@.subrange(s as int, k as int));
        }
        if eq_ignore_case_range(chars, a, b, chunked) {
            return true;
        }
        if k == n {
            return false;
        }
        proof {
            assert(v.skip(k - s + 1) =~= chars@.subrange(k + 1, n as int));
        }
        s = k + 1;
    }
    false
}

fn line_is_chunked_exec(line: &str, transfer: &[char], chunked: &[char]) -> (r: bool)
    requires
        transfer@ == "transfer-encoding"@,
        chunked@ == "chunked"@,
    ensures
        r == line_is_chunked(line@),
{
    let chars = chars_of(line);
    let n = chars.len();
    let c = find_char(chars.as_slice(), 0, n, ':');
    proof {
        assert(chars@.subrange(0, n as int) =~= line@);
    }
    if c == n {
        return false;
    }
    proof {
        assert(line@.take(c as int) =~= chars@.subrange(0, c as int));
        assert(line@.skip(c + 1) =~= chars@.subrange(c + 1, n as int));
    }
    eq_ignore_case_range(chars.as_slice(), 0, c, transfer) && value_has_chunked_exec(
        chars.as_slice(),
        c + 1,
        chunked,
    )
}

/// Whether the response head declares `Transfer-Encoding: chunked`.
pub fn is_chunked(head: &str) -> (r: bool)
    ensures
        r == is_chunked_spec(head@),
{
    let lines = split_lines(head);
    let transfer = chars_of("transfer-encoding");
    let chunked = chars_of("chunked");
    let mut i: usize = 0;
    while i < lines.len()
        invariant
            i <= lines@.len(),
            views_of(lines@) == lines_spec(head@),
            transfer@ == "transfer-encoding"@,
            chunked@ == "chunked"@,
            is_chunked_spec(head@) == any_line_chunked(lines_spec(head@), i as int),
        decreases lines.len() - i,
    {
        assert(views_of(lines@)[i as int] == lines@[i as int]@);
        if line_is_chunked_exec(lines[i].as_str(), transfer.as_slice(), chunked.as_slice()) {
            return true;
        }
        i += 1;
    }
    false
}

/// Reassembles a chunked HTTP body.
pub fn decode_chunked_body(raw_body: &str) -> (res: Result<String, OllamaError>)
    ensures
        match chunked_spec(raw_body.spec_bytes(), 0, Seq::empty()) {
            Ok(t) => res matches Ok(s) && s@ == t,
            Err(m) => res matches Err(e) && e matches OllamaError::Decode(s) && s@ == m,
        },
{
    let bytes = raw_body.as_bytes();
    let ghost b = bytes@;
    let mut position: usize = 0;
    let mut decoded: Vec<u8> = Vec::new();
    loop
        invariant
            b == bytes@,
            b == raw_body.spec_bytes(),
            position <= b.len(),
            chunked_spec(b, 0, Seq::empty()) == chunked_spec(b, position as int, decoded@),
        decreases b.len() - position,
    {
        proof {
            lemma_crlf_from(b, position as int);
        }
        let line_end = match find_crlf(bytes, position) {
            Some(e) => e,
            None => {
                return Err(decode_error("chunked response is missing a chunk-size line ending"));
            },
        };
        proof {
            // The line ending lies within the bytes, so its position is exact as a `usize`.
            assert(crlf_from(b, position as int) is Some);
            assert(b.len() == bytes.len());
            let e = crlf_from(b, position as int)->0;
            assert(position <= e && e + 2 <= b.len());
            assert(line_end == e as usize);
            assert(crlf_from(b, position as int) == Some(line_end as int));
        }
        let text = match utf8_text(slice_subrange(bytes, position, line_end)) {
            Ok(t) => t,
            Err(m) => {
                return Err(OllamaError::Decode(m));
            },
        };
        let tc = chars_of(text.as_str());
        let semi = find_char(tc.as_slice(), 0, tc.len(), ';');
        let (a, z) = trim_bounds(tc.as_slice(), 0, semi);
        proof {
            assert(tc@.subrange(0, tc@.len() as int) =~= tc@);
            assert(tc@.take(semi as int) =~= tc@.subrange(0, semi as int));
        }
        proof {
            lemma_parse_radix_bounds(tc@.subrange(a as int, z as int), 16, usize::MAX as int);
        }
        let size = match parse_radix(tc.as_slice(), a, z, 16, usize::MAX as u64) {
            Ok(v) => v,
            Err(k) => {
                return Err(decode_error(k.message()));
            },
        };
        position = line_end + 2;
        if size == 0 {
            return match utf8_text(decoded.as_slice()) {
                Ok(t) => Ok(t),
                Err(m) => Err(OllamaError::Decode(m)),
            };
        }
        let size = size as usize;
        let chunk_end = match position.checked_add(size) {
            Some(v) => v,
            None => {
                return Err(decode_error("chunked response size overflows address space"));
            },
        };
        let terminator_end = match chunk_end.checked_add(2) {
            Some(v) => v,
            None => {
                return Err(decode_error("chunked response terminator overflows address space"));
            },
        };
        if terminator_end > bytes.len() || bytes[chunk_end] != 13 || bytes[chunk_end + 1] != 10 {
            return Err(
                decode_error("chunked response has an incomplete chunk or invalid terminator"),
            );
        }
        let ghost before = decoded@;
        decoded.extend_from_slice(slice_subrange(bytes, position, chunk_end));
        proof {
            assert(decoded@ =~= before + b.subrange(position as int, chunk_end as int));
        }
        position = terminator_end;
    }
}

/// Parses a raw HTTP/1.1 response into its status and (dechunked) body.
pub fn parse_http_response(response: &str) -> (res: Result<OllamaResponse, OllamaError>)
    ensures
        match parse_http_spec(response@) {
            Ok(p) => res matches Ok(r) && r.status == p.status && r.body@ == p.body,
            Err(m) => res matches Err(e) && e matches OllamaError::Decode(s) && s@ == m,
        },
{
    let chars = chars_of(response);
    let n = chars.len();
    proof {
        lemma_find_blank_line(chars@, 0);
    }
    let i = match find_blank_line_exec(chars.as_slice()) {
        Some(i) => i,
        None => {
            return Err(decode_error("HTTP response is missing a header boundary"));
        },
    };
    let head = response.substring_char(0, i);
    let head_chars = chars_of(head);
    proof {
        assert(head@ == response@.take(i as int));
    }
    let hl = head_chars.len();
    let a = skip_spaces_exec(head_chars.as_slice(), 0);
    if a >= hl {
        return Err(decode_error("HTTP response is missing a status"));
    }
    let w = skip_word_exec(head_chars.as_slice(), a);
    let c = skip_spaces_exec(head_chars.as_slice(), w);
    if c >= hl {
        return Err(decode_error("HTTP response is missing a status"));
    }
    let d = skip_word_exec(head_chars.as_slice(), c);
    proof {
        lemma_parse_radix_bounds(head_chars@.subrange(c as int, d as int), 10, 65535);
    }
    let status = match parse_radix(head_chars.as_slice(), c, d, 10, 65535) {
        Ok(v) => v as u16,
        Err(k) => {
            return Err(decode_error(k.message()));
        },
    };
    let raw_body = response.substring_char(i + 4, n);
    proof {
        assert(raw_body@ =~= response@.skip(i + 4));
    }
    let body = if is_chunked(head) {
        decode_chunked_body(raw_body)?
    } else {
        String::from_str(raw_body)
    };
    Ok(OllamaResponse { status, body })
}

/// The request-line word of a method.
pub open spec fn method_text(m: HttpMethod) -> Seq<char> {
    match m {
        HttpMethod::Get => "GET"@,
        HttpMethod::Post => "POST"@,
    }
}

/// The body text of a request: empty when it has none.
pub open spec fn body_text(body: Option<String>) -> Seq<char> {
    match body {
        Some(b) => b@,
        None => Seq::empty(),
    }
}

/// The HTTP/1.1 text of a request to `host` for `path`: the request line,
/// the `Host`, `accept`, optional `content-type`, `content-length` (the
/// body's UTF-8 length) and `connection: close` headers, a blank line and
/// the body.
pub open spec fn request_text_spec(request: OllamaRequest, host: Seq<char>, path: Seq<char>) -> Seq<
    char,
> {
    let body = body_text(request.body);
    method_text(request.method) + " "@ + path + " HTTP/1.1\r\nHost: "@ + host
        + "\r\naccept: application/json\r\n"@ + (if request.body is Some {
        "content-type: application/json\r\n"@
    } else {
        Seq::empty()
    }) + "content-length: "@ + decimal_spec(encode_utf8(body).len()) + "\r\nconnection: close\r\n\r\n"@
        + body
}

/// Frames a request as HTTP/1.1 text for `host` and `path`.
pub fn http_request_text(request: &OllamaRequest, host: &str, path: &str) -> (text: String)
    ensures
        text@ == request_text_spec(*request, host@, path@),
{
    let mut text = match request.method {
        HttpMethod::Get => String::from_str("GET"),
        HttpMethod::Post => String::from_str("POST"),
    };
    text.append(" ");
    text.append(path);
    text.append(" HTTP/1.1\r\nHost: ");
    text.append(host);
    text.append("\r\naccept: application/json\r\n");
    let ghost start = text@;
    let body: &str = match &request.body {
        Some(b) => {
            text.append("content-type: application/json\r\n");
            b.as_str()
        },
        None => "",
    };
    proof {
        reveal_strlit("");
        assert(body@ == body_text(request.body));
        if request.body is None {
            assert(text@ =~= start + Seq::<char>::empty());
        }
    }
    text.append("content-length: ");
    let body_bytes = body.as_bytes();
    push_decimal(&mut text, body_bytes.len() as u64);
    text.append("\r\nconnection: close\r\n\r\n");
    text.append(body);
    text
}

/// Authority and path of an `http://` URL: the path starts at the first
/// `/` after the scheme and is `/` when there is none.
pub open spec fn split_url_spec(url: Seq<char>) -> Option<(Seq<char>, Seq<char>)> {
    if starts_with(url, "http://"@) {
        let rest = url.skip("http://"@.len() as int);
        let i = prefix_before(rest, '/');
        if i < rest.len() {
            Some((rest.take(i), rest.skip(i)))
        } else {
            Some((rest, "/"@))
        }
    } else {
        None
    }
}

/// Splits an `http://` URL into authority and path; any other URL is refused.
pub fn split_http_url(url: &str) -> (res: Result<(String, String), OllamaError>)
    ensures
        match split_url_spec(url@) {
            Some((authority, path)) => res matches Ok(r) && r.0@ == authority && r.1@ == path,
            None => res matches Err(e) && e matches OllamaError::InvalidBaseUrl(u) && u@ == url@,
        },
{
    let chars = chars_of(url);
    let scheme = chars_of("http://");
    let n = chars.len();
    let k = scheme.len();
    let has_scheme = k <= n && chars_match(chars.as_slice(), 0, k, scheme.as_slice());
    proof {
        if k <= n {
            assert(url@.take(k as int) =~= chars@.subrange(0, k as int));
        }
    }
    if !has_scheme {
        return Err(OllamaError::InvalidBaseUrl(String::from_str(url)));
    }
    let r = find_char(chars.as_slice(), k, n, '/');
    proof {
        assert(chars@.subrange(k as int, n as int) =~= url@.skip(k as int));
    }
    if r < n {
        let authority = String::from_str(url.substring_char(k, r));
        let path = String::from_str(url.substring_char(r, n));
        proof {
            let rest = url@.skip(k as int);
            assert(rest.take(r - k) =~= url@.subrange(k as int, r as int));
            assert(rest.skip(r - k) =~= url@.subrange(r as int, n as int));
        }
        Ok((authority, path))
    } else {
        let authority = String::from_str(url.substring_char(k, n));
        Ok((authority, String::from_str("/")))
    }
}

} // verus!
