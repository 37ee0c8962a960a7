//! A minimal HTTP/1.1 server codec.
use bytes::{Bytes, BytesMut};
use vstd::prelude::*;
use vstd::utf8::encode_utf8;

use crate::buf::{bytes_as_slice, bytes_mut_extend, bytes_mut_view, bytes_new, bytes_view};
use crate::codec::head::{
    decimal, eq_ignore_case, eq_ignore_case_str, fields_view, header_lines, write_decimal,
};
use crate::codec::{Decoder, Encoder};
use crate::Result;

pub mod request;

pub use request::{http_step, FieldsV, HttpRequest, HttpStep, RequestV};
use request::{decode_http_request, HttpDecodeOptions};

verus! {

/// Default limit on the size of a request head and of a request body.
pub const DEFAULT_MAX_HTTP_HEADER_LEN: usize = 16384;

/// Minimal HTTP/1.1 server codec.
///
/// The codec decodes HTTP requests with headers and an optional
/// `Content-Length` body, and encodes HTTP responses. Chunked transfer coding
/// can be enabled with [`HttpCodec::allow_chunked`].
pub struct HttpCodec {
    max_header_len: usize,
    max_body_len: usize,
    allow_chunked: bool,
    preserve_trailers: bool,
}

impl HttpCodec {
    /// The largest request head accepted.
    pub closed spec fn spec_max_header_len(&self) -> usize {
        self.max_header_len
    }

    /// The largest request body accepted.
    pub closed spec fn spec_max_body_len(&self) -> usize {
        self.max_body_len
    }

    /// Whether chunked request bodies are decoded.
    pub closed spec fn spec_allow_chunked(&self) -> bool {
        self.allow_chunked
    }

    /// Whether trailer fields are kept on requests.
    pub closed spec fn spec_preserve_trailers(&self) -> bool {
        self.preserve_trailers
    }

    /// Creates a server-side HTTP/1.1 codec.
    pub fn server() -> (r: Self)
        ensures
            r.spec_max_header_len() == DEFAULT_MAX_HTTP_HEADER_LEN,
            r.spec_max_body_len() == DEFAULT_MAX_HTTP_HEADER_LEN,
            !r.spec_allow_chunked(),
            !r.spec_preserve_trailers(),
    {
        Self {
            max_header_len: DEFAULT_MAX_HTTP_HEADER_LEN,
            max_body_len: DEFAULT_MAX_HTTP_HEADER_LEN,
            allow_chunked: false,
            preserve_trailers: false,
        }
    }

    /// Sets the maximum HTTP request header size.
    pub fn max_header_len(self, value: usize) -> (r: Self)
        ensures
            r.spec_max_header_len() == value,
            r.spec_max_body_len() == self.spec_max_body_len(),
            r.spec_allow_chunked() == self.spec_allow_chunked(),
            r.spec_preserve_trailers() == self.spec_preserve_trailers(),
    {
        Self { max_header_len: value, ..self }
    }

    /// Sets the maximum HTTP request body size accepted by this codec.
    pub fn max_body_len(self, value: usize) -> (r: Self)
        ensures
            r.spec_max_header_len() == self.spec_max_header_len(),
            r.spec_max_body_len() == value,
            r.spec_allow_chunked() == self.spec_allow_chunked(),
            r.spec_preserve_trailers() == self.spec_preserve_trailers(),
    {
        Self { max_body_len: value, ..self }
    }

    /// Enables or disables decoding `Transfer-Encoding: chunked` request bodies.
    ///
    /// Chunked decoding is disabled by default. When enabled, chunks are
    /// aggregated into [`HttpRequest::body`] and are still bounded by
    /// [`HttpCodec::max_body_len`].
    pub fn allow_chunked(self, value: bool) -> (r: Self)
        ensures
            r.spec_max_header_len() == self.spec_max_header_len(),
            r.spec_max_body_len() == self.spec_max_body_len(),
            r.spec_allow_chunked() == value,
            r.spec_preserve_trailers() == self.spec_preserve_trailers(),
    {
        Self { allow_chunked: value, ..self }
    }

    /// Preserves chunked request trailer fields in [`HttpRequest::trailers`].
    ///
    /// Trailers are parsed and validated whenever chunked decoding is enabled.
    /// This option only controls whether they are retained on the request.
    pub fn preserve_trailers(self, value: bool) -> (r: Self)
        ensures
            r.spec_max_header_len() == self.spec_max_header_len(),
            r.spec_max_body_len() == self.spec_max_body_len(),
            r.spec_allow_chunked() == self.spec_allow_chunked(),
            r.spec_preserve_trailers() == value,
    {
        Self { preserve_trailers: value, ..self }
    }
}

impl Default for HttpCodec {
    fn default() -> (r: Self)
        ensures
            r.spec_max_header_len() == DEFAULT_MAX_HTTP_HEADER_LEN,
            r.spec_max_body_len() == DEFAULT_MAX_HTTP_HEADER_LEN,
            !r.spec_allow_chunked(),
            !r.spec_preserve_trailers(),
    {
        Self::server()
    }
}

impl Decoder for HttpCodec {
    type Item = HttpRequest;

    /// Every configuration can be run.
    open spec fn decodable(&self) -> bool {
        true
    }

    /// Takes one request out of `src` by the rule [`http_step`].
    fn decode(&mut self, src: &mut BytesMut) -> (res: Result<Option<HttpRequest>>)
        ensures
            *final(self) == *old(self),
            ({
                let s = bytes_mut_view(*old(src));
                match http_step(
                    old(self).spec_max_header_len() as int,
                    old(self).spec_max_body_len() as int,
                    old(self).spec_allow_chunked(),
                    old(self).spec_preserve_trailers(),
                    s,
                ) {
                    HttpStep::NeedMore => (res matches Ok(None)) && bytes_mut_view(*final(src)) == s,
                    HttpStep::TooLarge { current, max } => (res matches Err(crate::Error::FrameTooLarge { current: c, max: m })
                        && c == current && m == max && bytes_mut_view(*final(src)) == s),
                    HttpStep::Malformed => (res matches Err(crate::Error::Decode(_))) && bytes_mut_view(*final(src)) == s,
                    HttpStep::Request { len, request } => (res matches Ok(Some(r)) && r@ == request
                        && bytes_mut_view(*final(src)) == s.skip(len)),
                    HttpStep::Invalid { len } => (res matches Err(crate::Error::Decode(_)))
                        && bytes_mut_view(*final(src)) == s.skip(len),
                }
            }),
    {
        decode_http_request(
            src,
            HttpDecodeOptions {
                max_header_len: self.max_header_len,
                max_body_len: self.max_body_len,
                allow_chunked: self.allow_chunked,
                preserve_trailers: self.preserve_trailers,
            },
        )
    }
}

/// The reason phrase of a common status code; `OK` for the others.
pub open spec fn default_reason_text(status: u16) -> Seq<char> {
    if status == 100 {
        "Continue"@
    } else if status == 101 {
        "Switching Protocols"@
    } else if status == 200 {
        "OK"@
    } else if status == 201 {
        "Created"@
    } else if status == 202 {
        "Accepted"@
    } else if status == 204 {
        "No Content"@
    } else if status == 301 {
        "Moved Permanently"@
    } else if status == 302 {
        "Found"@
    } else if status == 304 {
        "Not Modified"@
    } else if status == 400 {
        "Bad Request"@
    } else if status == 401 {
        "Unauthorized"@
    } else if status == 403 {
        "Forbidden"@
    } else if status == 404 {
        "Not Found"@
    } else if status == 405 {
        "Method Not Allowed"@
    } else if status == 409 {
        "Conflict"@
    } else if status == 413 {
        "Payload Too Large"@
    } else if status == 415 {
        "Unsupported Media Type"@
    } else if status == 500 {
        "Internal Server Error"@
    } else if status == 502 {
        "Bad Gateway"@
    } else if status == 503 {
        "Service Unavailable"@
    } else {
        "OK"@
    }
}

/// The reason phrases that a response without its own reason carries are
/// the standard ones (RFC 9110, section 15) for each status of the table,
/// and `OK` for any other status.
pub proof fn lemma_standard_reason_phrases(status: u16)
    ensures
        default_reason_text(100) == "Continue"@,
        default_reason_text(101) == "Switching Protocols"@,
        default_reason_text(200) == "OK"@,
        default_reason_text(201) == "Created"@,
        default_reason_text(202) == "Accepted"@,
        default_reason_text(204) == "No Content"@,
        default_reason_text(301) == "Moved Permanently"@,
        default_reason_text(302) == "Found"@,
        default_reason_text(304) == "Not Modified"@,
        default_reason_text(400) == "Bad Request"@,
        default_reason_text(401) == "Unauthorized"@,
        default_reason_text(403) == "Forbidden"@,
        default_reason_text(404) == "Not Found"@,
        default_reason_text(405) == "Method Not Allowed"@,
        default_reason_text(409) == "Conflict"@,
        default_reason_text(413) == "Payload Too Large"@,
        default_reason_text(415) == "Unsupported Media Type"@,
        default_reason_text(500) == "Internal Server Error"@,
        default_reason_text(502) == "Bad Gateway"@,
        default_reason_text(503) == "Service Unavailable"@,
        !(status == 100 || status == 101 || status == 200 || status == 201 || status == 202 || status == 204
            || status == 301 || status == 302 || status == 304 || status == 400 || status == 401 || status == 403
            || status == 404 || status == 405 || status == 409 || status == 413 || status == 415 || status == 500
            || status == 502 || status == 503) ==> default_reason_text(status) == "OK"@,
{
}

/// The reason phrase of a common status code.
pub fn default_reason(status: u16) -> (r: &'static str)
    ensures
        r@ == default_reason_text(status),
{
    match status {
        100 => "Continue",
        101 => "Switching Protocols",
        200 => "OK",
        201 => "Created",
        202 => "Accepted",
        204 => "No Content",
        301 => "Moved Permanently",
        302 => "Found",
        304 => "Not Modified",
        400 => "Bad Request",
        401 => "Unauthorized",
        403 => "Forbidden",
        404 => "Not Found",
        405 => "Method Not Allowed",
        409 => "Conflict",
        413 => "Payload Too Large",
        415 => "Unsupported Media Type",
        500 => "Internal Server Error",
        502 => "Bad Gateway",
        503 => "Service Unavailable",
        _ => "OK",
    }
}

/// The view of a response.
pub ghost struct ResponseV {
    pub status: u16,
    pub reason: Seq<char>,
    pub headers: FieldsV,
    pub body: Seq<u8>,
}

/// Minimal HTTP/1.1 response encoded by [`HttpCodec`].
#[derive(Debug, Clone, PartialEq, Eq)]
pub struct HttpResponse {
    pub(crate) status: u16,
    pub(crate) reason: String,
    pub(crate) headers: Vec<(String, String)>,
    pub(crate) body: Bytes,
}

impl View for HttpResponse {
    type V = ResponseV;

    closed spec fn view(&self) -> ResponseV {
        ResponseV {
            status: self.status,
            reason: self.reason@,
            headers: fields_view(self.headers),
            body: bytes_view(self.body),
        }
    }
}

impl HttpResponse {
    /// Creates a response with a default reason phrase for common statuses.
    pub fn new(status: u16) -> (r: Self)
        ensures
            r@ == (ResponseV {
                status,
                reason: default_reason_text(status),
                headers: Seq::empty(),
                body: Seq::empty(),
            }),
    {
        let r = Self {
            status,
            reason: default_reason(status).to_owned(),
            headers: Vec::new(),
            body: bytes_new(),
        };
        assert(fields_view(r.headers) =~= Seq::<(Seq<char>, Seq<char>)>::empty());
        r
    }

    /// Sets the reason phrase.
    pub fn reason(self, reason: String) -> (r: Self)
        ensures
            r@ == (ResponseV { reason: reason@, ..self@ }),
    {
        Self { reason, ..self }
    }

    /// Adds a response header.
    pub fn header(self, name: String, value: String) -> (r: Self)
        ensures
            r@ == (ResponseV { headers: self@.headers.push((name@, value@)), ..self@ }),
    {
        let mut r = self;
        let ghost before = fields_view(r.headers);
        r.headers.push((name, value));
        assert(fields_view(r.headers) =~= before.push((name@, value@)));
        r
    }

    /// Sets the response body.
    pub fn body(self, body: Bytes) -> (r: Self)
        ensures
            r@ == (ResponseV { body: bytes_view(body), ..self@ }),
    {
        Self { body, ..self }
    }

    /// HTTP response status code.
    pub fn status(&self) -> (r: u16)
        ensures
            r == self@.status,
    {
        self.status
    }

    /// HTTP response body.
    pub fn body_bytes(&self) -> (r: &Bytes)
        ensures
            bytes_view(*r) == self@.body,
    {
        &self.body
    }
}

/// Some header is named `Content-Length`, up to ASCII case.
pub open spec fn has_content_length(headers: FieldsV) -> bool {
    exists|k: int| 0 <= k < headers.len() && eq_ignore_case(#[trigger] headers[k].0, "Content-Length"@)
}

/// The status line of a response.
pub open spec fn status_line(status: u16, reason: Seq<char>) -> Seq<u8> {
    encode_utf8("HTTP/1.1 "@) + decimal(status as nat) + encode_utf8(" "@) + encode_utf8(reason) + encode_utf8("\r\n"@)
}

/// The `Content-Length` line the encoder adds when the headers have none.
pub open spec fn length_line(headers: FieldsV, body_len: nat) -> Seq<u8> {
    if has_content_length(headers) {
        Seq::empty()
    } else {
        encode_utf8("Content-Length: "@) + decimal(body_len) + encode_utf8("\r\n"@)
    }
}

/// The bytes of a response: status line, headers, a `Content-Length`
/// when the headers have none, a blank line and the body.
pub open spec fn http_response_bytes(r: ResponseV) -> Seq<u8> {
    status_line(r.status, r.reason) + header_lines(r.headers) + length_line(r.headers, r.body.len()) + encode_utf8(
        "\r\n"@,
    ) + r.body
}

/// Writes the status line.
fn write_status_line(status: u16, reason: &str, dst: &mut BytesMut)
    ensures
        bytes_mut_view(*final(dst)) == bytes_mut_view(*old(dst)) + status_line(status, reason@),
{
    let ghost d0 = bytes_mut_view(*dst);
    bytes_mut_extend(dst, "HTTP/1.1 ".as_bytes());
    write_decimal(status as u64, dst);
    bytes_mut_extend(dst, " ".as_bytes());
    bytes_mut_extend(dst, reason.as_bytes());
    bytes_mut_extend(dst, "\r\n".as_bytes());
    assert(bytes_mut_view(*dst) =~= d0 + status_line(status, reason@));
}

/// Writes the header lines and tells whether one is `Content-Length`.
fn write_header_lines(headers: &Vec<(String, String)>, dst: &mut BytesMut) -> (has_content_len: bool)
    ensures
        bytes_mut_view(*final(dst)) == bytes_mut_view(*old(dst)) + header_lines(fields_view(*headers)),
        has_content_len == has_content_length(fields_view(*headers)),
{
    let ghost mark = bytes_mut_view(*dst);
    let ghost hs = fields_view(*headers);
    let mut has_content_len = false;
    let mut i: usize = 0;
    assert(hs.take(0) =~= Seq::<(Seq<char>, Seq<char>)>::empty());
    assert(mark + Seq::<u8>::empty() =~= mark);
    while i < headers.len()
        invariant
            i <= headers@.len(),
            hs == fields_view(*headers),
            bytes_mut_view(*dst) == mark + header_lines(hs.take(i as int)),
            has_content_len <==> exists|k: int| 0 <= k < i && eq_ignore_case(#[trigger] hs[k].0, "Content-Length"@),
        decreases headers@.len() - i,
    {
        if eq_ignore_case_str(headers[i].0.as_str(), "Content-Length") {
            has_content_len = true;
        }
        bytes_mut_extend(dst, headers[i].0.as_str().as_bytes());
        bytes_mut_extend(dst, ": ".as_bytes());
        bytes_mut_extend(dst, headers[i].1.as_str().as_bytes());
        bytes_mut_extend(dst, "\r\n".as_bytes());
        proof {
            assert(hs.take(i + 1).drop_last() =~= hs.take(i as int));
            assert(hs.take(i + 1).last() == hs[i as int]);
            assert(bytes_mut_view(*dst) =~= mark + header_lines(hs.take(i + 1)));
        }
        i = i + 1;
    }
    assert(hs.take(i as int) =~= hs);
    has_content_len
}

/// Writes a response.
pub(crate) fn encode_http_response(response: HttpResponse, dst: &mut BytesMut) -> (res: Result<()>)
    ensures
        res is Ok,
        bytes_mut_view(*final(dst)) == bytes_mut_view(*old(dst)) + http_response_bytes(response@),
{
    let ghost d0 = bytes_mut_view(*dst);
    let ghost v = response@;
    write_status_line(response.status, response.reason.as_str(), dst);
    let ghost d1 = bytes_mut_view(*dst);
    let has_content_len = write_header_lines(&response.headers, dst);
    let ghost d2 = bytes_mut_view(*dst);
    let body = bytes_as_slice(&response.body);
    if !has_content_len {
        bytes_mut_extend(dst, "Content-Length: ".as_bytes());
        write_decimal(body.len() as u64, dst);
        bytes_mut_extend(dst, "\r\n".as_bytes());
    }
    assert(bytes_mut_view(*dst) =~= d2 + length_line(v.headers, v.body.len()));
    bytes_mut_extend(dst, "\r\n".as_bytes());
    bytes_mut_extend(dst, body);
    assert(bytes_mut_view(*dst) =~= d0 + http_response_bytes(v));
    Ok(())
}

impl Encoder<HttpResponse> for HttpCodec {
    /// Appends the response's bytes, [`http_response_bytes`].
    fn encode(&mut self, item: HttpResponse, dst: &mut BytesMut) -> (res: Result<()>)
        ensures
            *final(self) == *old(self),
            res is Ok,
            bytes_mut_view(*final(dst)) == bytes_mut_view(*old(dst)) + http_response_bytes(item@),
    {
        encode_http_response(item, dst)
    }
}

} // verus!
