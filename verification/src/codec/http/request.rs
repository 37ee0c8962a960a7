//! Reading HTTP/1.1 requests: the head, the body framing and chunked bodies.
use bytes::{Bytes, BytesMut};
use vstd::prelude::*;
use vstd::slice::slice_subrange;
use vstd::utf8::*;

use crate::buf::{
    bytes_as_slice, bytes_mut_as_slice, bytes_mut_extend, bytes_mut_freeze, bytes_mut_new, bytes_mut_split_to,
    bytes_mut_view, bytes_slice, bytes_view,
};
use crate::codec::head::{
    chars_of, eq_ignore_case, eq_ignore_case_chars, eq_ignore_case_str, field_value, has_token, has_token_of, fields_from, fields_view,
    find_char, find_char_from, find_field, lemma_find_char, line_bounds, line_end, line_next, parse_fields,
    parse_uint, split_trimmed, starts_with, starts_with_str, string_from_chars, three_tokens, three_tokens_of, trim,
    trim_bounds, trimmed_pieces,
};
use crate::search::{find_from, first_match, lemma_first_match_some};
use crate::text::{message_with_number, message_with_text, owned, usize_from_str_radix, usize_parse_error, utf8_string};
use crate::{Error, Result};

verus! {

/// A header or trailer list, as characters.
pub type FieldsV = Seq<(Seq<char>, Seq<char>)>;

/// `\r\n`.
pub open spec fn crlf() -> Seq<u8> {
    seq![13u8, 10u8]
}

/// `\r\n\r\n`, the end of a head.
pub open spec fn blank_line() -> Seq<u8> {
    seq![13u8, 10u8, 13u8, 10u8]
}

/// Reading a request head: a request line with a method, a target and an
/// `HTTP/1.x` version, then header fields (blank lines are skipped).
pub open spec fn sp_http_head(text: Seq<char>) -> Option<(Seq<char>, Seq<char>, Seq<char>, FieldsV)> {
    let (method, target, version) = three_tokens(text.subrange(0, line_end(text, 0)));
    if method.len() == 0 || target.len() == 0 || !starts_with(version, "HTTP/1."@) {
        None
    } else {
        match fields_from(text, line_next(text, 0), false) {
            Some(headers) => Some((method, target, version, headers)),
            None => None,
        }
    }
}

/// The `Content-Length` of the header fields from index 0 on, given the
/// value `found` earlier: `Some(None)` when there is none, `None` when one
/// is not a number or there are two.
pub open spec fn content_length_from(hs: FieldsV, found: Option<nat>) -> Option<Option<nat>>
    decreases hs.len(),
{
    if hs.len() == 0 {
        Some(found)
    } else if eq_ignore_case(hs[0].0, "Content-Length"@) {
        match parse_uint(trim(hs[0].1), 10) {
            None => None,
            Some(v) => if found is Some {
                None
            } else {
                content_length_from(hs.drop_first(), Some(v))
            },
        }
    } else {
        content_length_from(hs.drop_first(), found)
    }
}

/// The error text that the `Content-Length` of the header fields from
/// index 0 on is refused with, when [`content_length_from`] refuses it;
/// `found` says whether one was seen earlier.
pub open spec fn content_length_error(hs: FieldsV, found: bool) -> Seq<char>
    decreases hs.len(),
{
    if hs.len() == 0 {
        Seq::empty()
    } else if eq_ignore_case(hs[0].0, "Content-Length"@) {
        match parse_uint(trim(hs[0].1), 10) {
            None => "invalid Content-Length header: "@ + usize_parse_error(trim(hs[0].1), 10),
            Some(_) => if found {
                "multiple Content-Length headers are not supported"@
            } else {
                content_length_error(hs.drop_first(), true)
            },
        }
    } else {
        content_length_error(hs.drop_first(), found)
    }
}

/// How a request body is delimited.
pub ghost enum BodyKindV {
    Unframed,
    ContentLength(nat),
    Chunked,
}

/// Some token is `chunked`, up to ASCII case.
pub open spec fn names_chunked(tokens: Seq<Seq<char>>) -> bool {
    exists|k: int| 0 <= k < tokens.len() && eq_ignore_case(#[trigger] tokens[k], "chunked"@)
}

/// Some non-empty token is not `identity`, up to ASCII case.
pub open spec fn names_other_coding(tokens: Seq<Seq<char>>) -> bool {
    exists|k: int| 0 <= k < tokens.len() && #[trigger] tokens[k].len() != 0 && !eq_ignore_case(tokens[k], "identity"@)
}

/// The body framing the headers ask for, or `None` when they are refused:
/// a `chunked` transfer coding must be enabled, the last one and without a
/// `Content-Length`; other codings than `identity` are refused.
pub open spec fn sp_body_kind(hs: FieldsV, allow_chunked: bool) -> Option<BodyKindV> {
    match content_length_from(hs, None) {
        None => None,
        Some(cl) => {
            let by_length = match cl {
                None => Some(BodyKindV::Unframed),
                Some(n) => Some(BodyKindV::ContentLength(n)),
            };
            match field_value(hs, "Transfer-Encoding"@) {
                None => by_length,
                Some(value) => {
                    let tokens = trimmed_pieces(value, ',');
                    if names_chunked(tokens) {
                        if cl is Some || !allow_chunked || !eq_ignore_case(tokens.last(), "chunked"@) {
                            None
                        } else {
                            Some(BodyKindV::Chunked)
                        }
                    } else if names_other_coding(tokens) {
                        None
                    } else {
                        by_length
                    }
                },
            }
        },
    }
}

/// The size of a chunk from its size line: the hexadecimal number before
/// any `;` extension, trimmed.
pub open spec fn chunk_size(line: Seq<char>) -> Option<nat> {
    let k = find_char(line, ';', 0);
    let size = trim(
        if k < 0 {
            line
        } else {
            line.take(k)
        },
    );
    if size.len() == 0 {
        None
    } else {
        parse_uint(size, 16)
    }
}

/// Reading trailer fields: none when empty, else UTF-8 header fields,
/// kept only when `preserve`.
pub open spec fn sp_trailers(b: Seq<u8>, preserve: bool) -> Option<FieldsV> {
    if b.len() == 0 {
        Some(Seq::empty())
    } else if !valid_utf8(b) {
        None
    } else {
        match fields_from(decode_utf8(b), 0, false) {
            None => None,
            Some(f) => Some(
                if preserve {
                    f
                } else {
                    Seq::empty()
                },
            ),
        }
    }
}

/// What reading a chunked body gives.
pub ghost enum ChunkedV {
    /// More bytes are needed.
    NeedMore,
    /// The body is malformed.
    Refused,
    /// The body would exceed the limit; `current` is the size it would reach.
    TooLarge { current: int },
    /// The request ends at `end`, with `body` and `trailers`.
    Done { end: int, body: Seq<u8>, trailers: FieldsV },
}

/// Reading a chunked body of `s` from `pos`, after `body` was read.
pub open spec fn chunked_from(s: Seq<u8>, pos: int, body: Seq<u8>, max: int, preserve: bool) -> ChunkedV
    decreases s.len() - pos,
{
    if pos < 0 || pos > s.len() {
        ChunkedV::Refused
    } else {
        match first_match(s.skip(pos), crlf()) {
            None => ChunkedV::NeedMore,
            Some(off) => {
                proof {
                    lemma_first_match_some(s.skip(pos), crlf());
                }
                let line_end = pos + off;
                let line = s.subrange(pos, line_end);
                if !valid_utf8(line) {
                    ChunkedV::Refused
                } else {
                    match chunk_size(decode_utf8(line)) {
                        None => ChunkedV::Refused,
                        Some(size) => {
                            let p = line_end + 2;
                            if size == 0 {
                                if s.len() >= p + 2 && s.subrange(p, p + 2) == crlf() {
                                    ChunkedV::Done { end: p + 2, body, trailers: Seq::empty() }
                                } else {
                                    match first_match(s.skip(p), blank_line()) {
                                        None => ChunkedV::NeedMore,
                                        Some(o) => match sp_trailers(s.subrange(p, p + o), preserve) {
                                            Some(t) => ChunkedV::Done { end: p + o + 4, body, trailers: t },
                                            None => ChunkedV::Refused,
                                        },
                                    }
                                }
                            } else {
                                let grown = if body.len() + size > usize::MAX {
                                    usize::MAX as int
                                } else {
                                    (body.len() + size) as int
                                };
                                if grown > max {
                                    ChunkedV::TooLarge { current: grown }
                                } else if p + size + 2 > usize::MAX {
                                    ChunkedV::Refused
                                } else if s.len() < p + size + 2 {
                                    ChunkedV::NeedMore
                                } else if s.subrange(p + size, p + size + 2) != crlf() {
                                    ChunkedV::Refused
                                } else {
                                    chunked_from(s, p + size + 2, body + s.subrange(p, p + size), max, preserve)
                                }
                            }
                        },
                    }
                }
            },
        }
    }
}

/// The view of a request.
pub ghost struct RequestV {
    pub method: Seq<char>,
    pub target: Seq<char>,
    pub version: Seq<char>,
    pub headers: FieldsV,
    pub body: Seq<u8>,
    pub trailers: FieldsV,
}

/// What the request decoder makes of the bytes buffered so far.
pub ghost enum HttpStep {
    /// More bytes are needed; nothing is consumed.
    NeedMore,
    /// The head or body exceeds its limit `max`; nothing is consumed.
    TooLarge { current: int, max: int },
    /// The request is refused; nothing is consumed.
    Malformed,
    /// A request of `len` bytes is consumed.
    Request { len: int, request: RequestV },
    /// A request of `len` bytes is consumed but its head is refused.
    Invalid { len: int },
}

/// The request made of `s[..len]`, whose head is `s[..end]`.
pub open spec fn finish_request(s: Seq<u8>, len: int, end: int, body: Seq<u8>, trailers: FieldsV) -> HttpStep {
    let head = s.take(end);
    if !valid_utf8(head) {
        HttpStep::Invalid { len }
    } else {
        match sp_http_head(decode_utf8(head)) {
            Some((method, target, version, headers)) => HttpStep::Request {
                len,
                request: RequestV { method, target, version, headers, body, trailers },
            },
            None => HttpStep::Invalid { len },
        }
    }
}

/// The request decoding rule with the codec's limits and options.
pub open spec fn http_step(
    max_header: int,
    max_body: int,
    allow_chunked: bool,
    preserve_trailers: bool,
    s: Seq<u8>,
) -> HttpStep {
    match first_match(s, blank_line()) {
        None => if s.len() > max_header {
            HttpStep::TooLarge { current: s.len() as int, max: max_header }
        } else {
            HttpStep::NeedMore
        },
        Some(end) => if end > max_header {
            HttpStep::TooLarge { current: end, max: max_header }
        } else {
            let head = s.take(end + 4);
            if !valid_utf8(head) {
                HttpStep::Malformed
            } else {
                match sp_http_head(decode_utf8(head)) {
                    None => HttpStep::Malformed,
                    Some((_, _, _, headers)) => match sp_body_kind(headers, allow_chunked) {
                        None => HttpStep::Malformed,
                        Some(BodyKindV::Unframed) => finish_request(s, end + 4, end, Seq::empty(), Seq::empty()),
                        Some(BodyKindV::ContentLength(n)) => if n > max_body {
                            HttpStep::TooLarge { current: n as int, max: max_body }
                        } else if end + 4 + n > usize::MAX {
                            HttpStep::Malformed
                        } else if s.len() < end + 4 + n {
                            HttpStep::NeedMore
                        } else {
                            finish_request(s, end + 4 + n, end, s.subrange(end + 4, end + 4 + n), Seq::empty())
                        },
                        Some(BodyKindV::Chunked) => match chunked_from(s, end + 4, Seq::empty(), max_body, preserve_trailers) {
                            ChunkedV::NeedMore => HttpStep::NeedMore,
                            ChunkedV::Refused => HttpStep::Malformed,
                            ChunkedV::TooLarge { current } => HttpStep::TooLarge { current, max: max_body },
                            ChunkedV::Done { end: total, body, trailers } => finish_request(s, total, end, body, trailers),
                        },
                    },
                }
            }
        },
    }
}

/// Minimal HTTP/1.1 request decoded by [`super::HttpCodec`].
#[derive(Debug, Clone, PartialEq, Eq)]
pub struct HttpRequest {
    pub(crate) method: String,
    pub(crate) target: String,
    pub(crate) version: String,
    pub(crate) headers: Vec<(String, String)>,
    pub(crate) body: Bytes,
    pub(crate) trailers: Vec<(String, String)>,
}

impl View for HttpRequest {
    type V = RequestV;

    closed spec fn view(&self) -> RequestV {
        RequestV {
            method: self.method@,
            target: self.target@,
            version: self.version@,
            headers: fields_view(self.headers),
            body: bytes_view(self.body),
            trailers: fields_view(self.trailers),
        }
    }
}

/// Parses a request head as [`sp_http_head`] describes.
pub(crate) fn parse_http_head(text: &str) -> (res: Result<(String, String, String, Vec<(String, String)>)>)
    ensures
        match sp_http_head(text@) {
            Some((m, t, v, hs)) => res matches Ok((m2, t2, v2, hs2)) && m2@ == m && t2@ == t && v2@ == v
                && fields_view(hs2) == hs,
            None => res matches Err(Error::Decode(_)),
        },
{
    let cs = chars_of(text);
    let s = cs.as_slice();
    let (end0, next0) = line_bounds(s, 0);
    let (method, target, version) = three_tokens_of(slice_subrange(s, 0, end0));
    if method.as_str().is_empty() || target.as_str().is_empty() || !starts_with_str(version.as_str(), "HTTP/1.") {
        return Err(Error::Decode(owned("invalid http request line")));
    }
    let headers = parse_fields(s, next0, false)?;
    Ok((method, target, version, headers))
}

/// The `Content-Length` of the headers, as [`content_length_from`] describes.
fn content_length(headers: &Vec<(String, String)>) -> (res: Result<Option<usize>>)
    ensures
        match content_length_from(fields_view(*headers), None) {
            Some(cl) => res matches Ok(v) && cl == (match v {
                Some(n) => Some(n as nat),
                None => None::<nat>,
            }),
            None => res matches Err(Error::Decode(m)) && m@ == content_length_error(fields_view(*headers), false),
        },
{
    let ghost hs = fields_view(*headers);
    let mut found: Option<usize> = None;
    let mut i: usize = 0;
    assert(hs.skip(0) =~= hs);
    while i < headers.len()
        invariant
            i <= headers@.len(),
            hs == fields_view(*headers),
            content_length_from(hs, None) == content_length_from(
                hs.skip(i as int),
                match found {
                    Some(n) => Some(n as nat),
                    None => None::<nat>,
                },
            ),
            content_length_error(hs, false) == content_length_error(hs.skip(i as int), found is Some),
        decreases headers@.len() - i,
    {
        let ghost rest = hs.skip(i as int);
        assert(rest[0] == (headers@[i as int].0@, headers@[i as int].1@));
        assert(rest.drop_first() =~= hs.skip(i + 1));
        if eq_ignore_case_str(headers[i].0.as_str(), "Content-Length") {
            let value = chars_of(headers[i].1.as_str());
            let (a, b) = trim_bounds(value.as_slice());
            let trimmed = string_from_chars(slice_subrange(value.as_slice(), a, b));
            let parsed = match usize_from_str_radix(trimmed.as_str(), 10) {
                Ok(v) => v,
                Err(err) => return Err(Error::Decode(message_with_text("invalid Content-Length header: ", err.as_str()))),
            };
            if found.is_some() {
                return Err(Error::Decode(owned("multiple Content-Length headers are not supported")));
            }
            found = Some(parsed);
        }
        i = i + 1;
    }
    assert(hs.skip(i as int).len() == 0);
    Ok(found)
}

/// How a request body is delimited.
pub(crate) enum BodyKind {
    /// No body.
    Empty,
    /// A body of this many bytes.
    ContentLength(usize),
    /// A chunked body.
    Chunked,
}

/// The body framing the headers ask for, as [`sp_body_kind`] describes.
fn request_body_kind(headers: &Vec<(String, String)>, allow_chunked: bool) -> (res: Result<BodyKind>)
    ensures
        match sp_body_kind(fields_view(*headers), allow_chunked) {
            Some(BodyKindV::Unframed) => res matches Ok(BodyKind::Empty),
            Some(BodyKindV::ContentLength(n)) => res matches Ok(BodyKind::ContentLength(m)) && m == n,
            Some(BodyKindV::Chunked) => res matches Ok(BodyKind::Chunked),
            None => res matches Err(Error::Decode(_)),
        },
        content_length_from(fields_view(*headers), None) is None ==> (res matches Err(Error::Decode(m))
            && m@ == content_length_error(fields_view(*headers), false)),
{
    let content_len = content_length(headers)?;
    let by_length = match content_len {
        Some(n) => BodyKind::ContentLength(n),
        None => BodyKind::Empty,
    };
    let te = match find_field(headers, "Transfer-Encoding") {
        Some(i) => i,
        None => return Ok(by_length),
    };
    let value = chars_of(headers[te].1.as_str());
    let tokens = split_trimmed(value.as_slice(), ',');
    let ghost ts = trimmed_pieces(value@, ',');
    let chunked = chars_of("chunked");
    let identity = chars_of("identity");
    let mut has_chunked = false;
    let mut has_other = false;
    let mut i: usize = 0;
    while i < tokens.len()
        invariant
            i <= tokens@.len(),
            tokens@.map_values(|x: Vec<char>| x@) == ts,
            chunked@ == "chunked"@,
            identity@ == "identity"@,
            has_chunked <==> exists|k: int| 0 <= k < i && eq_ignore_case(#[trigger] ts[k], "chunked"@),
            has_other <==> exists|k: int| 0 <= k < i && #[trigger] ts[k].len() != 0 && !eq_ignore_case(ts[k], "identity"@),
        decreases tokens@.len() - i,
    {
        assert(ts[i as int] == tokens@[i as int]@);
        if eq_ignore_case_chars(tokens[i].as_slice(), chunked.as_slice()) {
            has_chunked = true;
        }
        if tokens[i].len() != 0 && !eq_ignore_case_chars(tokens[i].as_slice(), identity.as_slice()) {
            has_other = true;
        }
        i = i + 1;
    }
    proof {
        assert(field_value(fields_view(*headers), "Transfer-Encoding"@) == Some(value@));
        assert(tokens@.len() == ts.len());
    }
    if has_chunked {
        assert(names_chunked(ts));
        if content_len.is_some() {
            return Err(Error::Decode(owned("request cannot contain both Transfer-Encoding: chunked and Content-Length")));
        }
        if !allow_chunked {
            return Err(Error::Decode(owned("chunked transfer coding is disabled")));
        }
        assert(ts.len() > 0);
        let last = tokens.len() - 1;
        assert(ts.last() == tokens@[last as int]@);
        if !eq_ignore_case_chars(tokens[last].as_slice(), chunked.as_slice()) {
            return Err(Error::Decode(owned("chunked transfer coding must be the final transfer encoding")));
        }
        return Ok(BodyKind::Chunked);
    }
    assert(!names_chunked(ts));
    if has_other {
        return Err(Error::Decode(message_with_text("unsupported Transfer-Encoding header: ", headers[te].1.as_str())));
    }
    Ok(by_length)
}

/// The size of a chunk from its size line, as [`chunk_size`] describes.
fn parse_chunk_size(line: &str) -> (res: Result<usize>)
    ensures
        match chunk_size(line@) {
            Some(n) => res == Ok::<usize, Error>(n as usize) && n <= usize::MAX,
            None => res matches Err(Error::Decode(_)),
        },
{
    let cs = chars_of(line);
    let s = cs.as_slice();
    proof {
        lemma_find_char(s@, ';', 0);
    }
    let end = match find_char_from(s, ';', 0) {
        Some(k) => k,
        None => s.len(),
    };
    let head = slice_subrange(s, 0, end);
    proof {
        let k = find_char(s@, ';', 0);
        if k < 0 {
            assert(head@ =~= s@);
        } else {
            assert(head@ =~= s@.take(k));
        }
    }
    let (a, b) = trim_bounds(head);
    let size = slice_subrange(head, a, b);
    if size.len() == 0 {
        return Err(Error::Decode(owned("missing chunk size")));
    }
    let digits = string_from_chars(size);
    match usize_from_str_radix(digits.as_str(), 16) {
        Ok(v) => Ok(v),
        Err(err) => Err(Error::Decode(message_with_text("invalid chunk size: ", err.as_str()))),
    }
}

/// Reads trailer fields, as [`sp_trailers`] describes.
fn parse_trailers(src: &[u8], preserve: bool) -> (res: Result<Vec<(String, String)>>)
    ensures
        match sp_trailers(src@, preserve) {
            Some(t) => res matches Ok(v) && fields_view(v) == t,
            None => res matches Err(Error::Decode(_)),
        },
{
    if src.len() == 0 {
        let v: Vec<(String, String)> = Vec::new();
        assert(fields_view(v) =~= Seq::<(Seq<char>, Seq<char>)>::empty());
        return Ok(v);
    }
    let text = match utf8_string(src) {
        Ok(text) => text,
        Err(message) => return Err(Error::Decode(message_with_text("http trailers are not utf-8: ", message.as_str()))),
    };
    let cs = chars_of(text.as_str());
    let fields = parse_fields(cs.as_slice(), Some(0), false)?;
    if preserve {
        Ok(fields)
    } else {
        let v: Vec<(String, String)> = Vec::new();
        assert(fields_view(v) =~= Seq::<(Seq<char>, Seq<char>)>::empty());
        Ok(v)
    }
}

/// Reads a chunked body of `src` from `body_start`, as [`chunked_from`]
/// describes: the end of the request, the body and the trailers.
#[verifier::rlimit(40)]
fn decode_chunked_body(src: &[u8], body_start: usize, max_body_len: usize, preserve: bool) -> (res: Result<
    Option<(usize, Bytes, Vec<(String, String)>)>,
>)
    requires
        body_start <= src@.len(),
    ensures
        match chunked_from(src@, body_start as int, Seq::empty(), max_body_len as int, preserve) {
            ChunkedV::NeedMore => res matches Ok(None),
            ChunkedV::Refused => res matches Err(Error::Decode(_)),
            ChunkedV::TooLarge { current } => res matches Err(Error::FrameTooLarge { current: c, max: m })
                && c == current && m == max_body_len,
            ChunkedV::Done { end, body, trailers } => res matches Ok(Some((e, b, t))) && e == end
                && bytes_view(b) == body && fields_view(t) == trailers,
        },
{
    let ghost goal = chunked_from(src@, body_start as int, Seq::empty(), max_body_len as int, preserve);
    let n = src.len();
    let mut pos = body_start;
    let mut body = bytes_mut_new();
    let crlf_pat: [u8; 2] = [13, 10];
    let blank_pat: [u8; 4] = [13, 10, 13, 10];
    assert(crlf_pat@ =~= crlf());
    assert(blank_pat@ =~= blank_line());
    loop
        invariant
            n == src@.len(),
            pos <= n,
            crlf_pat@ == crlf(),
            blank_pat@ == blank_line(),
            goal == chunked_from(src@, body_start as int, Seq::empty(), max_body_len as int, preserve),
            goal == chunked_from(src@, pos as int, bytes_mut_view(body), max_body_len as int, preserve),
        decreases n - pos,
    {
        let ghost acc = bytes_mut_view(body);
        let line_end = match find_from(src, crlf_pat.as_slice(), pos) {
            Some(i) => i,
            None => {
                assert(chunked_from(src@, pos as int, acc, max_body_len as int, preserve) == ChunkedV::NeedMore);
                return Ok(None);
            },
        };
        proof {
            lemma_first_match_some(src@.skip(pos as int), crlf());
        }
        let line = slice_subrange(src, pos, line_end);
        let text = match utf8_string(line) {
            Ok(text) => text,
            Err(message) => {
                assert(chunked_from(src@, pos as int, acc, max_body_len as int, preserve) == ChunkedV::Refused);
                return Err(Error::Decode(message_with_text("chunk size line is not utf-8: ", message.as_str())));
            },
        };
        let size = match parse_chunk_size(text.as_str()) {
            Ok(size) => size,
            Err(err) => {
                assert(chunked_from(src@, pos as int, acc, max_body_len as int, preserve) == ChunkedV::Refused);
                return Err(err);
            },
        };
        let p = line_end + 2;
        if size == 0 {
            if n - p >= 2 && src[p] == 13 && src[p + 1] == 10 {
                assert(src@.subrange(p as int, p + 2) =~= crlf());
                return Ok(Some((p + 2, bytes_mut_freeze(body), Vec::new())));
            }
            proof {
                if n - p >= 2 {
                    assert(src@.subrange(p as int, p + 2)[0] == src@[p as int]);
                    assert(src@.subrange(p as int, p + 2)[1] == src@[p + 1]);
                }
            }
            let trailer_end = match find_from(src, blank_pat.as_slice(), p) {
                Some(i) => i,
                None => return Ok(None),
            };
            let trailers = parse_trailers(slice_subrange(src, p, trailer_end), preserve)?;
            return Ok(Some((trailer_end + 4, bytes_mut_freeze(body), trailers)));
        }
        let grown = bytes_mut_as_slice(&body).len().saturating_add(size);
        if grown > max_body_len {
            return Err(Error::FrameTooLarge { current: grown, max: max_body_len });
        }
        let chunk_end = match p.checked_add(size) {
            Some(v) => v,
            None => return Err(Error::Decode(owned("chunk length overflow"))),
        };
        let crlf_end = match chunk_end.checked_add(2) {
            Some(v) => v,
            None => return Err(Error::Decode(owned("chunk length overflow"))),
        };
        if n < crlf_end {
            return Ok(None);
        }
        if src[chunk_end] != 13 || src[chunk_end + 1] != 10 {
            proof {
                assert(src@.subrange(chunk_end as int, crlf_end as int)[0] == src@[chunk_end as int]);
                assert(src@.subrange(chunk_end as int, crlf_end as int)[1] == src@[chunk_end + 1]);
            }
            return Err(Error::Decode(owned("chunk data is not followed by CRLF")));
        }
        assert(src@.subrange(chunk_end as int, crlf_end as int) =~= crlf());
        bytes_mut_extend(&mut body, slice_subrange(src, p, chunk_end));
        pos = crlf_end;
    }
}

/// The request with head `head`, `body` and `trailers`, or `None` when the
/// head is refused.
pub open spec fn request_of(head: Seq<u8>, body: Seq<u8>, trailers: FieldsV) -> Option<RequestV> {
    if !valid_utf8(head) {
        None
    } else {
        match sp_http_head(decode_utf8(head)) {
            Some((method, target, version, headers)) => Some(
                RequestV { method, target, version, headers, body, trailers },
            ),
            None => None,
        }
    }
}

/// Builds a request from its bytes `src`, whose head ends at `header_end`,
/// with the given body and trailers.
fn parse_http_request_with_body(src: Bytes, header_end: usize, body: Bytes, trailers: Vec<(String, String)>) -> (res:
    Result<HttpRequest>)
    requires
        header_end <= bytes_view(src).len(),
    ensures
        match request_of(bytes_view(src).take(header_end as int), bytes_view(body), fields_view(trailers)) {
            Some(r) => res matches Ok(v) && v@ == r,
            None => res matches Err(Error::Decode(_)),
        },
{
    let bytes = bytes_as_slice(&src);
    let head = slice_subrange(bytes, 0, header_end);
    assert(head@ =~= bytes_view(src).take(header_end as int));
    let text = match utf8_string(head) {
        Ok(text) => text,
        Err(message) => return Err(Error::Decode(message_with_text("http request header is not utf-8: ", message.as_str()))),
    };
    let (method, target, version, headers) = parse_http_head(text.as_str())?;
    Ok(HttpRequest { method, target, version, headers, body, trailers })
}

/// Builds a request from its bytes `src`, whose head ends at `header_end`;
/// the body is everything after the blank line.
pub(crate) fn parse_http_request(src: Bytes, header_end: usize) -> (res: Result<HttpRequest>)
    requires
        header_end + 4 <= bytes_view(src).len(),
    ensures
        match request_of(
            bytes_view(src).take(header_end as int),
            bytes_view(src).skip(header_end + 4),
            Seq::empty(),
        ) {
            Some(r) => res matches Ok(v) && v@ == r,
            None => res matches Err(Error::Decode(_)),
        },
{
    let n = bytes_as_slice(&src).len();
    assert(header_end + 4 <= n);
    let body_start = header_end + 4;
    let body = bytes_slice(&src, body_start, n);
    let trailers: Vec<(String, String)> = Vec::new();
    assert(fields_view(trailers) =~= Seq::<(Seq<char>, Seq<char>)>::empty());
    assert(bytes_view(src).subrange(body_start as int, n as int) =~= bytes_view(src).skip(body_start as int));
    parse_http_request_with_body(src, header_end, body, trailers)
}

/// The limits and options the request decoder works with.
pub(crate) struct HttpDecodeOptions {
    pub max_header_len: usize,
    pub max_body_len: usize,
    pub allow_chunked: bool,
    pub preserve_trailers: bool,
}

/// Takes one request out of `src` by the rule [`http_step`].
#[verifier::rlimit(40)]
pub(crate) fn decode_http_request(src: &mut BytesMut, options: HttpDecodeOptions) -> (res: Result<Option<HttpRequest>>)
    ensures
        ({
            let s = bytes_mut_view(*old(src));
            match http_step(
                options.max_header_len as int,
                options.max_body_len as int,
                options.allow_chunked,
                options.preserve_trailers,
                s,
            ) {
                HttpStep::NeedMore => (res matches Ok(None)) && bytes_mut_view(*final(src)) == s,
                HttpStep::TooLarge { current, max } => (res matches Err(Error::FrameTooLarge { current: c, max: m })
                    && c == current && m == max && bytes_mut_view(*final(src)) == s),
                HttpStep::Malformed => (res matches Err(Error::Decode(_))) && bytes_mut_view(*final(src)) == s,
                HttpStep::Request { len, request } => (res matches Ok(Some(r)) && r@ == request
                    && bytes_mut_view(*final(src)) == s.skip(len)),
                HttpStep::Invalid { len } => (res matches Err(Error::Decode(_))) && bytes_mut_view(*final(src)) == s.skip(len),
            }
        }),
{
    let ghost s = bytes_mut_view(*src);
    let buf = bytes_mut_as_slice(src);
    let n = buf.len();
    let pat: [u8; 4] = [13, 10, 13, 10];
    assert(pat@ =~= blank_line());
    assert(s.skip(0) =~= s);
    let header_end = match find_from(buf, pat.as_slice(), 0) {
        Some(end) => end,
        None => {
            if n > options.max_header_len {
                return Err(Error::FrameTooLarge { current: n, max: options.max_header_len });
            }
            return Ok(None);
        },
    };
    if header_end > options.max_header_len {
        return Err(Error::FrameTooLarge { current: header_end, max: options.max_header_len });
    }
    assert(header_end + 4 <= n);
    let head = slice_subrange(buf, 0, header_end + 4);
    assert(head@ =~= s.take(header_end + 4));
    let text = match utf8_string(head) {
        Ok(text) => text,
        Err(message) => return Err(Error::Decode(message_with_text("http request header is not utf-8: ", message.as_str()))),
    };
    let (_, _, _, headers) = parse_http_head(text.as_str())?;
    let body_kind = request_body_kind(&headers, options.allow_chunked)?;
    match body_kind {
        BodyKind::Empty => {
            let request = bytes_mut_freeze(bytes_mut_split_to(src, header_end + 4));
            assert(bytes_view(request).take(header_end as int) =~= s.take(header_end as int));
            assert(bytes_view(request).skip(header_end + 4) =~= Seq::<u8>::empty());
            match parse_http_request(request, header_end) {
                Ok(r) => Ok(Some(r)),
                Err(e) => Err(e),
            }
        },
        BodyKind::ContentLength(content_len) => {
            if content_len > options.max_body_len {
                return Err(Error::FrameTooLarge { current: content_len, max: options.max_body_len });
            }
            let total_len = match (header_end + 4).checked_add(content_len) {
                Some(v) => v,
                None => return Err(Error::Decode(owned("http request length overflow"))),
            };
            if n < total_len {
                return Ok(None);
            }
            let request = bytes_mut_freeze(bytes_mut_split_to(src, total_len));
            assert(bytes_view(request).take(header_end as int) =~= s.take(header_end as int));
            assert(bytes_view(request).skip(header_end + 4) =~= s.subrange(header_end + 4, total_len as int));
            match parse_http_request(request, header_end) {
                Ok(r) => Ok(Some(r)),
                Err(e) => Err(e),
            }
        },
        BodyKind::Chunked => {
            let body_start = header_end + 4;
            let (total_len, body, trailers) = match decode_chunked_body(
                buf,
                body_start,
                options.max_body_len,
                options.preserve_trailers,
            )? {
                Some(v) => v,
                None => return Ok(None),
            };
            proof {
                lemma_chunked_end(s, body_start as int, Seq::empty(), options.max_body_len as int, options.preserve_trailers);
            }
            let request = bytes_mut_freeze(bytes_mut_split_to(src, total_len));
            assert(bytes_view(request).take(header_end as int) =~= s.take(header_end as int));
            match parse_http_request_with_body(request, header_end, body, trailers) {
                Ok(r) => Ok(Some(r)),
                Err(e) => Err(e),
            }
        },
    }
}

/// A finished chunked body ends inside the buffer, past where it started.
pub proof fn lemma_chunked_end(s: Seq<u8>, pos: int, body: Seq<u8>, max: int, preserve: bool)
    ensures
        chunked_from(s, pos, body, max, preserve) matches ChunkedV::Done { end, .. } ==> pos <= end <= s.len(),
    decreases s.len() - pos,
{
    if 0 <= pos <= s.len() {
        if let Some(off) = first_match(s.skip(pos), crlf()) {
            lemma_first_match_some(s.skip(pos), crlf());
            let line_end = pos + off;
            let line = s.subrange(pos, line_end);
            if valid_utf8(line) {
                if let Some(size) = chunk_size(decode_utf8(line)) {
                    let p = line_end + 2;
                    if size == 0 {
                        if let Some(o) = first_match(s.skip(p), blank_line()) {
                            lemma_first_match_some(s.skip(p), blank_line());
                        }
                    } else if s.len() >= p + size + 2 {
                        lemma_chunked_end(s, p + size + 2, body + s.subrange(p, p + size), max, preserve);
                    }
                }
            }
        }
    }
}

/// The request asks to upgrade the connection to WebSocket: a `GET`
/// (up to ASCII case) with `Upgrade: websocket` and `upgrade` among the
/// `Connection` tokens.
pub open spec fn is_upgrade(r: RequestV) -> bool {
    &&& eq_ignore_case(r.method, "GET"@)
    &&& field_value(r.headers, "Upgrade"@) matches Some(v) && eq_ignore_case(v, "websocket"@)
    &&& field_value(r.headers, "Connection"@) matches Some(c) && has_token(c, "upgrade"@)
}

impl HttpRequest {
    /// HTTP method from the request line.
    pub fn method(&self) -> (r: &str)
        ensures
            r@ == self@.method,
    {
        self.method.as_str()
    }

    /// Request target from the request line.
    pub fn target(&self) -> (r: &str)
        ensures
            r@ == self@.target,
    {
        self.target.as_str()
    }

    /// HTTP version from the request line.
    pub fn version(&self) -> (r: &str)
        ensures
            r@ == self@.version,
    {
        self.version.as_str()
    }

    /// Request body bytes.
    pub fn body(&self) -> (r: &Bytes)
        ensures
            bytes_view(*r) == self@.body,
    {
        &self.body
    }

    /// Returns a case-insensitive header lookup.
    pub fn header(&self, name: &str) -> (r: Option<&str>)
        ensures
            match r {
                Some(v) => field_value(self@.headers, name@) == Some(v@),
                None => field_value(self@.headers, name@) is None,
            },
    {
        match find_field(&self.headers, name) {
            Some(i) => Some(self.headers[i].1.as_str()),
            None => None,
        }
    }

    /// Returns all request headers in wire order.
    pub fn headers(&self) -> (r: &[(String, String)])
        ensures
            r@.map_values(|h: (String, String)| (h.0@, h.1@)) == self@.headers,
    {
        self.headers.as_slice()
    }

    /// Returns chunked request trailer fields in wire order.
    pub fn trailers(&self) -> (r: &[(String, String)])
        ensures
            r@.map_values(|h: (String, String)| (h.0@, h.1@)) == self@.trailers,
    {
        self.trailers.as_slice()
    }

    /// True when the request asks to upgrade this connection to WebSocket.
    pub fn is_websocket_upgrade(&self) -> (r: bool)
        ensures
            r == is_upgrade(self@),
    {
        if !eq_ignore_case_str(self.method.as_str(), "GET") {
            return false;
        }
        let upgrade = match self.header("Upgrade") {
            Some(v) => v,
            None => return false,
        };
        if !eq_ignore_case_str(upgrade, "websocket") {
            return false;
        }
        let connection = match self.header("Connection") {
            Some(v) => v,
            None => return false,
        };
        let cs = chars_of(connection);
        has_token_of(cs.as_slice(), "upgrade")
    }
}

} // verus!
