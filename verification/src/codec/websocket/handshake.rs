//! The WebSocket opening handshake: the HTTP Upgrade request and the
//! 101 response that accepts it.
use base64::{engine::general_purpose::STANDARD, Engine as _};
use bytes::BytesMut;
use sha1::{Digest, Sha1};
use vstd::prelude::*;
use vstd::slice::{slice_subrange, slice_to_vec};
use vstd::utf8::encode_utf8;

use crate::buf::{bytes_mut_extend, bytes_mut_view};
use crate::codec::head::{
    chars_of, eq_ignore_case, eq_ignore_case_str, field_value, fields_from, fields_view, find_field, has_token,
    has_token_of, header_lines, line_bounds, line_end, line_next, parse_fields, starts_with, starts_with_str, three_tokens,
    three_tokens_of,
};
use crate::text::{message_with_number, message_with_text, owned};
use crate::{Error, Result};

verus! {

/// The GUID that RFC 6455 appends to the client key.
pub const ACCEPT_GUID: &'static str = "258EAFA5-E914-47DA-95CA-C5AB0DC85B11";

/// Number of bytes a decoded `Sec-WebSocket-Key` must have.
pub const CLIENT_KEY_LEN: usize = 16;

/// The SHA-1 digest of `data` (FIPS 180-4).
pub uninterp spec fn sha1_digest(data: Seq<u8>) -> Seq<u8>;

/// The symbol of a 6-bit value in the standard base64 alphabet
/// (RFC 4648, table 1): `A`-`Z`, `a`-`z`, `0`-`9`, `+` and `/`.
pub open spec fn base64_symbol(v: int) -> char {
    if v < 26 {
        ((v + 65) as u32) as char
    } else if v < 52 {
        ((v + 71) as u32) as char
    } else if v < 62 {
        ((v - 4) as u32) as char
    } else if v == 62 {
        '+'
    } else {
        '/'
    }
}

/// The standard, padded base64 encoding of `data` (RFC 4648, section 4):
/// each group of three bytes becomes four symbols of six bits each; a last
/// group of one or two bytes is filled with zero bits and padded with `=`
/// to four characters.
pub open spec fn base64_encoding(data: Seq<u8>) -> Seq<char>
    decreases data.len(),
{
    if data.len() == 0 {
        Seq::empty()
    } else if data.len() == 1 {
        let a = data[0] as int;
        seq![base64_symbol(a / 4), base64_symbol((a % 4) * 16), '=', '=']
    } else if data.len() == 2 {
        let a = data[0] as int;
        let b = data[1] as int;
        seq![base64_symbol(a / 4), base64_symbol((a % 4) * 16 + b / 16), base64_symbol((b % 16) * 4), '=']
    } else {
        let a = data[0] as int;
        let b = data[1] as int;
        let c = data[2] as int;
        seq![
            base64_symbol(a / 4),
            base64_symbol((a % 4) * 16 + b / 16),
            base64_symbol((b % 16) * 4 + c / 64),
            base64_symbol(c % 64),
        ] + base64_encoding(data.skip(3))
    }
}

/// The bytes that the standard, padded base64 text `text` decodes to, or
/// `None` when the `base64` crate's standard engine refuses it.
pub uninterp spec fn base64_decoding(text: Seq<u8>) -> Option<Seq<u8>>;

/// `Sha1::digest` of the `sha1` crate: the 20-byte SHA-1 digest of `data`,
/// named by [`sha1_digest`].
#[verifier::external_body]
fn sha1(data: &[u8]) -> (r: Vec<u8>)
    ensures
        r@ == sha1_digest(data@),
        r@.len() == 20,
{
    Sha1::digest(data).to_vec()
}

/// `Engine::encode` of the `base64` crate's `STANDARD` engine: the padded
/// encoding [`base64_encoding`]. The engine panics when the encoded length overflows
/// `usize`; `requires` keeps the input well below that.
#[verifier::external_body]
fn base64_encode(data: &[u8]) -> (r: String)
    requires
        data@.len() <= usize::MAX / 2,
    ensures
        r@ == base64_encoding(data@),
{
    STANDARD.encode(data)
}

/// `Engine::decode` of the `base64` crate's `STANDARD` engine, named by
/// [`base64_decoding`]; on a `DecodeError` the error's text is handed
/// back.
#[verifier::external_body]
fn base64_decode(text: &[u8]) -> (r: core::result::Result<Vec<u8>, String>)
    ensures
        match r {
            Ok(v) => base64_decoding(text@) == Some(v@),
            Err(_) => base64_decoding(text@) is None,
        },
{
    match STANDARD.decode(text) {
        Ok(v) => Ok(v),
        Err(err) => Err(err.to_string()),
    }
}

/// A client key is valid when it is base64 for exactly 16 bytes.
pub open spec fn client_key_ok(key: Seq<char>) -> bool {
    match base64_decoding(encode_utf8(key)) {
        Some(d) => d.len() == CLIENT_KEY_LEN,
        None => false,
    }
}

/// The `Sec-WebSocket-Accept` value for a client key.
pub open spec fn accept_key(key: Seq<char>) -> Seq<char> {
    base64_encoding(sha1_digest(encode_utf8(key) + encode_utf8(ACCEPT_GUID@)))
}

/// The view of a handshake request.
pub ghost struct HandshakeV {
    pub path: Seq<char>,
    pub key: Seq<char>,
    pub headers: Seq<(Seq<char>, Seq<char>)>,
}

/// Reading an Upgrade request (its text up to and including the blank
/// line): a `GET` request line with a path and an `HTTP/1.1` version,
/// header fields up to the first blank line, `Upgrade: websocket`, a
/// `Connection` list with `upgrade`, `Sec-WebSocket-Version: 13` and a
/// valid `Sec-WebSocket-Key`.
pub open spec fn sp_handshake(text: Seq<char>) -> Option<HandshakeV> {
    let (method, path, version) = three_tokens(text.subrange(0, line_end(text, 0)));
    if method != "GET"@ || path.len() == 0 || !starts_with(version, "HTTP/1.1"@) {
        None
    } else {
        match fields_from(text, line_next(text, 0), true) {
            None => None,
            Some(headers) => match (
                field_value(headers, "Upgrade"@),
                field_value(headers, "Connection"@),
                field_value(headers, "Sec-WebSocket-Version"@),
                field_value(headers, "Sec-WebSocket-Key"@),
            ) {
                (Some(upgrade), Some(connection), Some(version), Some(key)) => if eq_ignore_case(
                    upgrade,
                    "websocket"@,
                ) && has_token(connection, "upgrade"@) && eq_ignore_case(version, "13"@) && client_key_ok(key) {
                    Some(HandshakeV { path, key, headers })
                } else {
                    None
                },
                _ => None,
            },
        }
    }
}

/// Parsed WebSocket HTTP Upgrade request.
#[derive(Debug, Clone, PartialEq, Eq)]
pub struct WebSocketHandshake {
    path: String,
    key: String,
    headers: Vec<(String, String)>,
}

impl View for WebSocketHandshake {
    type V = HandshakeV;

    closed spec fn view(&self) -> HandshakeV {
        HandshakeV { path: self.path@, key: self.key@, headers: fields_view(self.headers) }
    }
}

impl WebSocketHandshake {
    /// Request path from the HTTP request line.
    pub fn path(&self) -> (r: &str)
        ensures
            r@ == self@.path,
    {
        self.path.as_str()
    }

    /// Value of the `Sec-WebSocket-Key` header.
    pub fn key(&self) -> (r: &str)
        ensures
            r@ == self@.key,
    {
        self.key.as_str()
    }

    /// Returns a case-insensitive header lookup from the handshake request.
    pub fn header(&self, name: &str) -> (r: Option<&str>)
        ensures
            match r {
                Some(v) => field_value(self@.headers, name@) == Some(v@),
                None => field_value(self@.headers, name@) is None,
            },
    {
        match find_field(&self.headers, name) {
            Some(i) => Some(self.headers[i].1.as_str()),
            None => None,
        }
    }

    /// Builds the standard HTTP 101 response for this handshake.
    pub fn accept_response(&self) -> (r: WebSocketHandshakeResponse)
        ensures
            r@.accept_key == accept_key(self@.key),
            r@.headers == Seq::<(Seq<char>, Seq<char>)>::empty(),
    {
        let r = WebSocketHandshakeResponse { accept_key: websocket_accept_key(self.key.as_str()), headers: Vec::new() };
        assert(fields_view(r.headers) =~= Seq::<(Seq<char>, Seq<char>)>::empty());
        r
    }
}

/// The view of a 101 response.
pub ghost struct ResponseV {
    pub accept_key: Seq<char>,
    pub headers: Seq<(Seq<char>, Seq<char>)>,
}

/// HTTP 101 Switching Protocols response for a WebSocket handshake.
#[derive(Debug, Clone, PartialEq, Eq)]
pub struct WebSocketHandshakeResponse {
    accept_key: String,
    headers: Vec<(String, String)>,
}

impl View for WebSocketHandshakeResponse {
    type V = ResponseV;

    closed spec fn view(&self) -> ResponseV {
        ResponseV { accept_key: self.accept_key@, headers: fields_view(self.headers) }
    }
}

impl WebSocketHandshakeResponse {
    /// Adds an extra response header.
    pub fn header(self, name: String, value: String) -> (r: Self)
        ensures
            r@.accept_key == self@.accept_key,
            r@.headers == self@.headers.push((name@, value@)),
    {
        let mut r = self;
        let ghost before = fields_view(r.headers);
        r.headers.push((name, value));
        assert(fields_view(r.headers) =~= before.push((name@, value@)));
        r
    }
}

/// The `Sec-WebSocket-Accept` value for `key`: the base64 text of the
/// SHA-1 digest of the key followed by the RFC 6455 GUID.
pub fn websocket_accept_key(key: &str) -> (r: String)
    ensures
        r@ == accept_key(key@),
{
    let mut data = slice_to_vec(key.as_bytes());
    let guid = ACCEPT_GUID.as_bytes();
    let ghost head = data@;
    let mut i: usize = 0;
    while i < guid.len()
        invariant
            i <= guid@.len(),
            data@ == head + guid@.take(i as int),
        decreases guid@.len() - i,
    {
        data.push(guid[i]);
        assert(guid@.take(i + 1) =~= guid@.take(i as int).push(guid@[i as int]));
        i = i + 1;
    }
    assert(guid@.take(i as int) =~= guid@);
    let digest = sha1(data.as_slice());
    base64_encode(digest.as_slice())
}

/// Checks a decoded client key: it must be exactly 16 bytes.
pub fn check_decoded_key(decoded: core::result::Result<Vec<u8>, String>) -> (res: Result<()>)
    ensures
        match decoded {
            Ok(d) => (res is Ok <==> d@.len() == CLIENT_KEY_LEN),
            Err(_) => res is Err,
        },
        res is Err ==> res matches Err(Error::Decode(_)),
{
    match decoded {
        Ok(d) => {
            if d.len() != CLIENT_KEY_LEN {
                return Err(Error::Decode(message_with_number("invalid Sec-WebSocket-Key length: ", d.len() as u64)));
            }
            Ok(())
        },
        Err(message) => Err(Error::Decode(message_with_text("invalid Sec-WebSocket-Key: ", message.as_str()))),
    }
}

/// The client key must be base64 for 16 bytes.
pub fn validate_client_key(key: &str) -> (res: Result<()>)
    ensures
        res is Ok <==> client_key_ok(key@),
        res is Err ==> res matches Err(Error::Decode(_)),
{
    let decoded = base64_decode(key.as_bytes());
    check_decoded_key(decoded)
}

/// Parses an Upgrade request as [`sp_handshake`] describes.
pub fn parse_handshake(text: &str) -> (res: Result<WebSocketHandshake>)
    ensures
        match sp_handshake(text@) {
            Some(h) => res matches Ok(v) && v@ == h,
            None => res matches Err(Error::Decode(_)),
        },
{
    let cs = chars_of(text);
    let s = cs.as_slice();
    let (end0, next0) = line_bounds(s, 0);
    let (method, path, version) = three_tokens_of(slice_subrange(s, 0, end0));
    let get = owned("GET");
    if !(method == get) || path.as_str().is_empty() || !starts_with_str(version.as_str(), "HTTP/1.1") {
        return Err(Error::Decode(owned("invalid websocket HTTP upgrade request line")));
    }
    let headers = parse_fields(s, next0, true)?;
    let upgrade = match find_field(&headers, "Upgrade") {
        Some(i) => i,
        None => return Err(Error::Decode(owned("missing Upgrade header"))),
    };
    if !eq_ignore_case_str(headers[upgrade].1.as_str(), "websocket") {
        return Err(Error::Decode(owned("invalid Upgrade header")));
    }
    let connection = match find_field(&headers, "Connection") {
        Some(i) => i,
        None => return Err(Error::Decode(owned("missing Connection header"))),
    };
    let connection_chars = chars_of(headers[connection].1.as_str());
    if !has_token_of(connection_chars.as_slice(), "upgrade") {
        return Err(Error::Decode(owned("invalid Connection header")));
    }
    let version_field = match find_field(&headers, "Sec-WebSocket-Version") {
        Some(i) => i,
        None => return Err(Error::Decode(owned("missing Sec-WebSocket-Version header"))),
    };
    if !eq_ignore_case_str(headers[version_field].1.as_str(), "13") {
        return Err(Error::Decode(owned("invalid Sec-WebSocket-Version header")));
    }
    let key_field = match find_field(&headers, "Sec-WebSocket-Key") {
        Some(i) => i,
        None => return Err(Error::Decode(owned("missing Sec-WebSocket-Key"))),
    };
    let key = headers[key_field].1.clone();
    validate_client_key(key.as_str())?;
    Ok(WebSocketHandshake { path, key, headers })
}

/// The bytes of a 101 response.
pub open spec fn response_bytes(r: ResponseV) -> Seq<u8> {
    encode_utf8("HTTP/1.1 101 Switching Protocols\r\n"@) + encode_utf8("Upgrade: websocket\r\n"@) + encode_utf8(
        "Connection: Upgrade\r\n"@,
    ) + encode_utf8("Sec-WebSocket-Accept: "@) + encode_utf8(r.accept_key) + encode_utf8("\r\n"@)
        + header_lines(r.headers) + encode_utf8("\r\n"@)
}

/// Writes a 101 response.
pub fn encode_handshake_response(response: WebSocketHandshakeResponse, dst: &mut BytesMut)
    ensures
        bytes_mut_view(*final(dst)) == bytes_mut_view(*old(dst)) + response_bytes(response@),
{
    let ghost d0 = bytes_mut_view(*dst);
    bytes_mut_extend(dst, "HTTP/1.1 101 Switching Protocols\r\n".as_bytes());
    bytes_mut_extend(dst, "Upgrade: websocket\r\n".as_bytes());
    bytes_mut_extend(dst, "Connection: Upgrade\r\n".as_bytes());
    bytes_mut_extend(dst, "Sec-WebSocket-Accept: ".as_bytes());
    bytes_mut_extend(dst, response.accept_key.as_str().as_bytes());
    bytes_mut_extend(dst, "\r\n".as_bytes());
    let ghost mark = bytes_mut_view(*dst);
    let ghost hs = fields_view(response.headers);
    let mut i: usize = 0;
    assert(hs.take(0) =~= Seq::<(Seq<char>, Seq<char>)>::empty());
    assert(mark + Seq::<u8>::empty() =~= mark);
    while i < response.headers.len()
        invariant
            i <= response.headers@.len(),
            hs == fields_view(response.headers),
            bytes_mut_view(*dst) == mark + header_lines(hs.take(i as int)),
        decreases response.headers@.len() - i,
    {
        let ghost before = bytes_mut_view(*dst);
        bytes_mut_extend(dst, response.headers[i].0.as_str().as_bytes());
        bytes_mut_extend(dst, ": ".as_bytes());
        bytes_mut_extend(dst, response.headers[i].1.as_str().as_bytes());
        bytes_mut_extend(dst, "\r\n".as_bytes());
        proof {
            assert(hs.take(i + 1).drop_last() =~= hs.take(i as int));
            assert(hs.take(i + 1).last() == hs[i as int]);
            assert(bytes_mut_view(*dst) =~= mark + header_lines(hs.take(i + 1)));
        }
        i = i + 1;
    }
    bytes_mut_extend(dst, "\r\n".as_bytes());
    proof {
        assert(hs.take(i as int) =~= hs);
        assert(bytes_mut_view(*dst) =~= d0 + response_bytes(response@));
    }
}

} // verus!
