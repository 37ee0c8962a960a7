//! WebSocket frames (RFC 6455, section 5) and the messages they carry.
use bytes::{Bytes, BytesMut};
use vstd::prelude::*;
use vstd::slice::{slice_subrange, slice_to_vec};
use vstd::utf8::*;

use crate::buf::{
    bytes_as_slice, bytes_copy_from_slice, bytes_mut_as_slice, bytes_mut_extend, bytes_mut_split_to,
    bytes_mut_view, bytes_new, bytes_view,
};
use crate::codec::websocket::handshake::{HandshakeV, ResponseV, WebSocketHandshake, WebSocketHandshakeResponse};
use crate::text::{message_with_number, message_with_text, owned, usize_from_u64, utf8_string};
use crate::uint::{be_value, lemma_be_bound, lemma_pow256_facts, read_uint};
use crate::{Error, Result};

verus! {

/// A close frame's status code and reason.
pub ghost struct CloseV {
    pub code: u16,
    pub reason: Seq<char>,
}

/// WebSocket close status and optional reason.
#[derive(Debug, Clone, PartialEq, Eq)]
pub struct WebSocketClose {
    /// Close status code.
    pub code: u16,
    /// UTF-8 close reason.
    pub reason: String,
}

impl View for WebSocketClose {
    type V = CloseV;

    open spec fn view(&self) -> CloseV {
        CloseV { code: self.code, reason: self.reason@ }
    }
}

/// The view of an optional close payload.
pub open spec fn close_view(c: Option<WebSocketClose>) -> Option<CloseV> {
    match c {
        Some(c) => Some(c@),
        None => None,
    }
}

/// The view of an inbound message.
pub ghost enum InboundV {
    Handshake(HandshakeV),
    Text(Seq<char>),
    Binary(Seq<u8>),
    Ping(Seq<u8>),
    Pong(Seq<u8>),
    Close(Option<CloseV>),
}

/// Inbound messages decoded by [`super::WebSocketCodec`].
#[derive(Debug, Clone, PartialEq, Eq)]
pub enum WebSocketInbound {
    /// HTTP Upgrade request accepted by the codec.
    Handshake(WebSocketHandshake),
    /// Text frame payload.
    Text(String),
    /// Binary frame payload.
    Binary(Bytes),
    /// Ping control frame payload.
    Ping(Bytes),
    /// Pong control frame payload.
    Pong(Bytes),
    /// Close control frame payload.
    Close(Option<WebSocketClose>),
}

impl View for WebSocketInbound {
    type V = InboundV;

    open spec fn view(&self) -> InboundV {
        match self {
            WebSocketInbound::Handshake(h) => InboundV::Handshake(h@),
            WebSocketInbound::Text(t) => InboundV::Text(t@),
            WebSocketInbound::Binary(b) => InboundV::Binary(bytes_view(*b)),
            WebSocketInbound::Ping(b) => InboundV::Ping(bytes_view(*b)),
            WebSocketInbound::Pong(b) => InboundV::Pong(bytes_view(*b)),
            WebSocketInbound::Close(c) => InboundV::Close(close_view(*c)),
        }
    }
}

/// The view of an outbound message.
pub ghost enum OutboundV {
    HandshakeResponse(ResponseV),
    Text(Seq<char>),
    Binary(Seq<u8>),
    Close(Option<CloseV>),
    Ping(Seq<u8>),
    Pong(Seq<u8>),
}

/// Outbound messages encoded by [`super::WebSocketCodec`].
#[derive(Debug, Clone, PartialEq, Eq)]
pub enum WebSocketOutbound {
    /// HTTP 101 Switching Protocols response.
    HandshakeResponse(WebSocketHandshakeResponse),
    /// Text frame payload.
    Text(String),
    /// Binary frame payload.
    Binary(Bytes),
    /// Close control frame payload.
    Close(Option<WebSocketClose>),
    /// Ping control frame payload.
    Ping(Bytes),
    /// Pong control frame payload.
    Pong(Bytes),
}

impl View for WebSocketOutbound {
    type V = OutboundV;

    open spec fn view(&self) -> OutboundV {
        match self {
            WebSocketOutbound::HandshakeResponse(r) => OutboundV::HandshakeResponse(r@),
            WebSocketOutbound::Text(t) => OutboundV::Text(t@),
            WebSocketOutbound::Binary(b) => OutboundV::Binary(bytes_view(*b)),
            WebSocketOutbound::Close(c) => OutboundV::Close(close_view(*c)),
            WebSocketOutbound::Ping(b) => OutboundV::Ping(bytes_view(*b)),
            WebSocketOutbound::Pong(b) => OutboundV::Pong(bytes_view(*b)),
        }
    }
}

/// WebSocket data/control messages after the opening handshake.
#[derive(Debug, Clone, PartialEq, Eq)]
pub enum WebSocketMessage {
    /// Text frame payload.
    Text(String),
    /// Binary frame payload.
    Binary(Bytes),
    /// Close control frame payload.
    Close(Option<WebSocketClose>),
    /// Ping control frame payload.
    Ping(Bytes),
    /// Pong control frame payload.
    Pong(Bytes),
}

impl View for WebSocketMessage {
    type V = OutboundV;

    open spec fn view(&self) -> OutboundV {
        match self {
            WebSocketMessage::Text(t) => OutboundV::Text(t@),
            WebSocketMessage::Binary(b) => OutboundV::Binary(bytes_view(*b)),
            WebSocketMessage::Close(c) => OutboundV::Close(close_view(*c)),
            WebSocketMessage::Ping(b) => OutboundV::Ping(bytes_view(*b)),
            WebSocketMessage::Pong(b) => OutboundV::Pong(bytes_view(*b)),
        }
    }
}

impl From<WebSocketMessage> for WebSocketOutbound {
    fn from(value: WebSocketMessage) -> (r: Self) {
        match value {
            WebSocketMessage::Text(text) => Self::Text(text),
            WebSocketMessage::Binary(bytes) => Self::Binary(bytes),
            WebSocketMessage::Close(close) => Self::Close(close),
            WebSocketMessage::Ping(bytes) => Self::Ping(bytes),
            WebSocketMessage::Pong(bytes) => Self::Pong(bytes),
        }
    }
}

impl vstd::std_specs::convert::FromSpecImpl<WebSocketMessage> for WebSocketOutbound {
    open spec fn obeys_from_spec() -> bool {
        true
    }

    open spec fn from_spec(value: WebSocketMessage) -> WebSocketOutbound {
        match value {
            WebSocketMessage::Text(text) => WebSocketOutbound::Text(text),
            WebSocketMessage::Binary(bytes) => WebSocketOutbound::Binary(bytes),
            WebSocketMessage::Close(close) => WebSocketOutbound::Close(close),
            WebSocketMessage::Ping(bytes) => WebSocketOutbound::Ping(bytes),
            WebSocketMessage::Pong(bytes) => WebSocketOutbound::Pong(bytes),
        }
    }
}

impl From<WebSocketHandshakeResponse> for WebSocketOutbound {
    fn from(value: WebSocketHandshakeResponse) -> (r: Self) {
        Self::HandshakeResponse(value)
    }
}

impl vstd::std_specs::convert::FromSpecImpl<WebSocketHandshakeResponse> for WebSocketOutbound {
    open spec fn obeys_from_spec() -> bool {
        true
    }

    open spec fn from_spec(value: WebSocketHandshakeResponse) -> WebSocketOutbound {
        WebSocketOutbound::HandshakeResponse(value)
    }
}

/// Close status codes a peer may send: 1000-1003, 1007-1014 and 3000-4999.
pub open spec fn valid_close_code(code: u16) -> bool {
    (1000 <= code <= 1003) || (1007 <= code <= 1014) || (3000 <= code <= 4999)
}

/// Reading a close payload: empty, or a valid status code and a UTF-8 reason.
pub open spec fn sp_close(p: Seq<u8>) -> Option<Option<CloseV>> {
    if p.len() == 0 {
        Some(None)
    } else if p.len() == 1 {
        None
    } else {
        let code = be_value(p.take(2)) as u16;
        let rest = p.skip(2);
        if !valid_close_code(code) || !valid_utf8(rest) {
            None
        } else {
            Some(Some(CloseV { code, reason: decode_utf8(rest) }))
        }
    }
}

/// The message a frame with `opcode` and (unmasked) payload `p` carries.
pub open spec fn sp_payload(opcode: u8, p: Seq<u8>) -> Option<InboundV> {
    if opcode == 1 {
        if valid_utf8(p) {
            Some(InboundV::Text(decode_utf8(p)))
        } else {
            None
        }
    } else if opcode == 2 {
        Some(InboundV::Binary(p))
    } else if opcode == 8 {
        match sp_close(p) {
            Some(c) => Some(InboundV::Close(c)),
            None => None,
        }
    } else if opcode == 9 {
        Some(InboundV::Ping(p))
    } else if opcode == 10 {
        Some(InboundV::Pong(p))
    } else {
        None
    }
}

/// `p` with each byte XORed with the mask byte at its index modulo 4.
pub open spec fn unmask(p: Seq<u8>, mask: Seq<u8>) -> Seq<u8> {
    Seq::new(p.len(), |i: int| p[i] ^ mask[i % 4])
}

/// The header checks made once the frame is complete: masking when
/// required, no reserved bits, no fragmentation, and control frames of at
/// most 125 bytes.
pub open spec fn header_ok(first: u8, masked: bool, len: nat, require_mask: bool) -> bool {
    let fin = first & 0x80 != 0;
    let opcode = first & 0x0f;
    &&& !(require_mask && !masked)
    &&& first & 0x70 == 0
    &&& (8 <= opcode <= 10 ==> len <= 125)
    &&& fin
}

/// What the frame decoder makes of the bytes buffered so far.
pub ghost enum FrameStep {
    /// More bytes are needed; nothing is consumed.
    NeedMore,
    /// The payload exceeds the limit; nothing is consumed.
    TooLarge { current: int },
    /// The header is refused; nothing is consumed.
    Malformed,
    /// A frame of `len` bytes is consumed and carries `msg`.
    Message { len: int, msg: InboundV },
    /// A frame of `len` bytes is consumed but its payload is refused.
    Invalid { len: int },
}

/// The frame decoding rule with the masking requirement and payload limit.
pub open spec fn frame_step(require_mask: bool, max_len: int, s: Seq<u8>) -> FrameStep {
    if s.len() < 2 {
        FrameStep::NeedMore
    } else {
        let kind = s[1] & 0x7f;
        let masked = s[1] & 0x80 != 0;
        let header_len: int = if kind == 126 {
            4
        } else if kind == 127 {
            10
        } else {
            2
        };
        if s.len() < header_len {
            FrameStep::NeedMore
        } else {
            let len: nat = if kind == 126 {
                be_value(s.subrange(2, 4))
            } else if kind == 127 {
                be_value(s.subrange(2, 10))
            } else {
                kind as nat
            };
            if (kind == 126 && len < 126) || (kind == 127 && len <= 65535) || (kind == 127 && len > i64::MAX) {
                FrameStep::Malformed
            } else if len > usize::MAX {
                FrameStep::Malformed
            } else if len > max_len {
                FrameStep::TooLarge { current: len as int }
            } else {
                let mask_len: int = if masked {
                    4
                } else {
                    0
                };
                let frame_len = header_len + mask_len + len;
                if frame_len > usize::MAX {
                    FrameStep::Malformed
                } else if s.len() < frame_len {
                    FrameStep::NeedMore
                } else if !header_ok(s[0], masked, len, require_mask) {
                    FrameStep::Malformed
                } else {
                    let raw = s.subrange(header_len + mask_len, frame_len);
                    let payload = if masked {
                        unmask(raw, s.subrange(header_len, header_len + 4))
                    } else {
                        raw
                    };
                    match sp_payload(s[0] & 0x0f, payload) {
                        Some(msg) => FrameStep::Message { len: frame_len, msg },
                        None => FrameStep::Invalid { len: frame_len },
                    }
                }
            }
        }
    }
}

/// Checks a close status code.
fn validate_close_code(code: u16) -> (r: bool)
    ensures
        r == valid_close_code(code),
{
    (1000 <= code && code <= 1003) || (1007 <= code && code <= 1014) || (3000 <= code && code <= 4999)
}

/// Reads a close payload.
fn decode_close(payload: &[u8]) -> (res: Result<Option<WebSocketClose>>)
    ensures
        match sp_close(payload@) {
            Some(c) => res matches Ok(v) && close_view(v) == c,
            None => res matches Err(Error::Decode(_)),
        },
{
    if payload.len() == 0 {
        return Ok(None);
    }
    if payload.len() == 1 {
        return Err(Error::Decode(owned("websocket close payload cannot be one byte")));
    }
    let code_value = read_uint(payload, 0, 2, true);
    proof {
        assert(payload@.subrange(0, 2) =~= payload@.take(2));
        lemma_be_bound(payload@.take(2));
        lemma_pow256_facts(2);
    }
    let code = code_value as u16;
    if !validate_close_code(code) {
        return Err(Error::Decode(message_with_number("invalid websocket close status code: ", code as u64)));
    }
    let rest = slice_subrange(payload, 2, payload.len());
    proof {
        assert(rest@ =~= payload@.skip(2));
    }
    match utf8_string(rest) {
        Ok(reason) => Ok(Some(WebSocketClose { code, reason })),
        Err(message) => Err(Error::Decode(message_with_text("invalid websocket close reason: ", message.as_str()))),
    }
}

/// The message carried by a frame with `opcode` and unmasked `payload`.
fn decode_payload(opcode: u8, payload: Bytes) -> (res: Result<Option<WebSocketInbound>>)
    ensures
        match sp_payload(opcode, bytes_view(payload)) {
            Some(m) => res matches Ok(Some(v)) && v@ == m,
            None => res matches Err(Error::Decode(_)),
        },
{
    match opcode {
        1 => match utf8_string(bytes_as_slice(&payload)) {
            Ok(text) => Ok(Some(WebSocketInbound::Text(text))),
            Err(message) => Err(Error::Decode(message_with_text("invalid websocket text frame: ", message.as_str()))),
        },
        2 => Ok(Some(WebSocketInbound::Binary(payload))),
        8 => {
            let close = decode_close(bytes_as_slice(&payload))?;
            Ok(Some(WebSocketInbound::Close(close)))
        },
        9 => Ok(Some(WebSocketInbound::Ping(payload))),
        10 => Ok(Some(WebSocketInbound::Pong(payload))),
        _ => Err(Error::Decode(message_with_number("unsupported websocket opcode: ", opcode as u64))),
    }
}

/// XORs each payload byte with the mask byte at its index modulo 4.
fn unmask_payload(raw: &[u8], mask: &[u8]) -> (r: Vec<u8>)
    requires
        mask@.len() == 4,
    ensures
        r@ == unmask(raw@, mask@),
{
    let mut out: Vec<u8> = Vec::new();
    let mut i: usize = 0;
    while i < raw.len()
        invariant
            i <= raw@.len(),
            mask@.len() == 4,
            out@ == unmask(raw@, mask@).take(i as int),
        decreases raw@.len() - i,
    {
        out.push(raw[i] ^ mask[i % 4]);
        assert(unmask(raw@, mask@).take(i + 1) =~= unmask(raw@, mask@).take(i as int).push(raw@[i as int] ^ mask@[(i % 4) as int]));
        i = i + 1;
    }
    assert(unmask(raw@, mask@).take(i as int) =~= unmask(raw@, mask@));
    out
}

/// Takes one frame out of `src` by the rule [`frame_step`].
#[verifier::rlimit(40)]
pub fn decode_frame(require_mask: bool, max_frame_len: usize, src: &mut BytesMut) -> (res: Result<Option<WebSocketInbound>>)
    ensures
        ({
            let s = bytes_mut_view(*old(src));
            match frame_step(require_mask, max_frame_len as int, s) {
                FrameStep::NeedMore => (res matches Ok(None) && bytes_mut_view(*final(src)) == s),
                FrameStep::TooLarge { current } => (res matches Err(Error::FrameTooLarge { current: c, max: m })
                    && c == current && m == max_frame_len && bytes_mut_view(*final(src)) == s),
                FrameStep::Malformed => (res matches Err(Error::Decode(_)) && bytes_mut_view(*final(src)) == s),
                FrameStep::Message { len, msg } => (res matches Ok(Some(v)) && v@ == msg
                    && bytes_mut_view(*final(src)) == s.skip(len)),
                FrameStep::Invalid { len } => (res matches Err(Error::Decode(_)) && bytes_mut_view(*final(src)) == s.skip(len)),
            }
        }),
{
    let ghost s = bytes_mut_view(*src);
    let buf = bytes_mut_as_slice(src);
    let n = buf.len();
    if n < 2 {
        return Ok(None);
    }
    let first = buf[0];
    let second = buf[1];
    let masked = second & 0x80 != 0;
    let kind = second & 0x7f;
    let mut header_len: usize = 2;
    let mut payload_len: u64 = kind as u64;
    if kind == 126 {
        if n < 4 {
            return Ok(None);
        }
        payload_len = read_uint(buf, 2, 2, true);
        header_len = 4;
    } else if kind == 127 {
        if n < 10 {
            return Ok(None);
        }
        payload_len = read_uint(buf, 2, 8, true);
        header_len = 10;
    }
    if (kind == 126 && payload_len < 126) || (kind == 127 && payload_len <= 65535) {
        return Err(Error::Decode(owned("websocket payload length is not minimally encoded")));
    }
    if kind == 127 && payload_len > 0x7fff_ffff_ffff_ffff {
        return Err(Error::Decode(owned("websocket 64-bit payload length uses the reserved high bit")));
    }
    let payload_len = match usize_from_u64(payload_len) {
        Ok(v) => v,
        Err(message) => return Err(Error::Decode(message_with_text("websocket payload length overflow: ", message.as_str()))),
    };
    if payload_len > max_frame_len {
        return Err(Error::FrameTooLarge { current: payload_len, max: max_frame_len });
    }
    let mask_len: usize = if masked {
        4
    } else {
        0
    };
    let frame_len = match (header_len + mask_len).checked_add(payload_len) {
        Some(v) => v,
        None => return Err(Error::Decode(owned("websocket frame length overflow"))),
    };
    if n < frame_len {
        return Ok(None);
    }
    let fin = first & 0x80 != 0;
    let opcode = first & 0x0f;
    if require_mask && !masked {
        return Err(Error::Decode(owned("websocket client frame is not masked")));
    }
    if first & 0x70 != 0 {
        return Err(Error::Decode(owned("websocket reserved bits are set without an extension")));
    }
    if 8 <= opcode && opcode <= 10 {
        if !fin {
            return Err(Error::Decode(owned("fragmented websocket control frame")));
        }
        if payload_len > 125 {
            return Err(Error::Decode(owned("websocket control frame payload exceeds 125 bytes")));
        }
    }
    if !fin {
        return Err(Error::Decode(owned("fragmented websocket data frames are not supported yet")));
    }
    let frame = bytes_mut_split_to(src, frame_len);
    let bytes = bytes_mut_as_slice(&frame);
    let raw = slice_subrange(bytes, header_len + mask_len, frame_len);
    let payload = if masked {
        let mask = slice_subrange(bytes, header_len, header_len + 4);
        assert(mask@ =~= s.subrange(header_len as int, header_len + 4));
        let plain = unmask_payload(raw, mask);
        bytes_copy_from_slice(plain.as_slice())
    } else {
        bytes_copy_from_slice(raw)
    };
    proof {
        assert(raw@ =~= s.subrange(header_len + mask_len, frame_len as int));
    }
    decode_payload(opcode, payload)
}

/// The big-endian bytes of a 16-bit length.
pub open spec fn be16(n: nat) -> Seq<u8> {
    seq![((n / 0x100) % 0x100) as u8, (n % 0x100) as u8]
}

/// The big-endian bytes of a 64-bit length.
pub open spec fn be64(n: nat) -> Seq<u8> {
    seq![
        ((n / 0x100_0000_0000_0000) % 0x100) as u8,
        ((n / 0x1_0000_0000_0000) % 0x100) as u8,
        ((n / 0x100_0000_0000) % 0x100) as u8,
        ((n / 0x1_0000_0000) % 0x100) as u8,
        ((n / 0x100_0000) % 0x100) as u8,
        ((n / 0x1_0000) % 0x100) as u8,
        ((n / 0x100) % 0x100) as u8,
        (n % 0x100) as u8,
    ]
}

/// The payload length field: one byte up to 125, else 126 and two bytes up
/// to 65535, else 127 and eight bytes.
pub open spec fn length_field(n: nat) -> Seq<u8> {
    if n <= 125 {
        seq![n as u8]
    } else if n <= 65535 {
        seq![126u8] + be16(n)
    } else {
        seq![127u8] + be64(n)
    }
}

/// An unmasked final frame with `opcode` and payload `p`.
pub open spec fn enc_frame(opcode: u8, p: Seq<u8>) -> Seq<u8> {
    seq![0x80u8 | opcode] + length_field(p.len()) + p
}

/// A control frame: refused when the payload exceeds 125 bytes.
pub open spec fn enc_control(opcode: u8, p: Seq<u8>) -> Option<Seq<u8>> {
    if p.len() > 125 {
        None
    } else {
        Some(enc_frame(opcode, p))
    }
}

/// The payload of a close frame: empty, or the status code and reason;
/// refused for an invalid status code.
pub open spec fn close_payload(c: Option<CloseV>) -> Option<Seq<u8>> {
    match c {
        None => Some(Seq::empty()),
        Some(c) => if valid_close_code(c.code) {
            Some(be16(c.code as nat) + encode_utf8(c.reason))
        } else {
            None
        },
    }
}

/// A close frame.
pub open spec fn enc_close(c: Option<CloseV>) -> Option<Seq<u8>> {
    match close_payload(c) {
        Some(p) => enc_control(8, p),
        None => None,
    }
}

/// Writes an unmasked final frame.
pub fn encode_frame(opcode: u8, payload: &[u8], dst: &mut BytesMut)
    ensures
        bytes_mut_view(*final(dst)) == bytes_mut_view(*old(dst)) + enc_frame(opcode, payload@),
{
    let ghost d0 = bytes_mut_view(*dst);
    let len = payload.len();
    if len <= 125 {
        let head: [u8; 2] = [0x80u8 | opcode, len as u8];
        bytes_mut_extend(dst, head.as_slice());
        assert(head@ =~= seq![0x80u8 | opcode] + length_field(len as nat));
    } else if len <= 65535 {
        let head: [u8; 4] = [0x80u8 | opcode, 126, (len / 0x100) as u8, (len % 0x100) as u8];
        bytes_mut_extend(dst, head.as_slice());
        assert(head@ =~= seq![0x80u8 | opcode] + length_field(len as nat));
    } else {
        let v = len as u64;
        let head: [u8; 10] = [
            0x80u8 | opcode,
            127,
            ((v / 0x100_0000_0000_0000) % 0x100) as u8,
            ((v / 0x1_0000_0000_0000) % 0x100) as u8,
            ((v / 0x100_0000_0000) % 0x100) as u8,
            ((v / 0x1_0000_0000) % 0x100) as u8,
            ((v / 0x100_0000) % 0x100) as u8,
            ((v / 0x1_0000) % 0x100) as u8,
            ((v / 0x100) % 0x100) as u8,
            (v % 0x100) as u8,
        ];
        bytes_mut_extend(dst, head.as_slice());
        assert(head@ =~= seq![0x80u8 | opcode] + length_field(len as nat));
    }
    bytes_mut_extend(dst, payload);
}

/// Writes a control frame; refused when the payload exceeds 125 bytes.
pub fn encode_control_frame(opcode: u8, payload: &[u8], dst: &mut BytesMut) -> (res: Result<()>)
    ensures
        match enc_control(opcode, payload@) {
            Some(b) => res is Ok && bytes_mut_view(*final(dst)) == bytes_mut_view(*old(dst)) + b,
            None => (res matches Err(Error::Encode(_))) && bytes_mut_view(*final(dst)) == bytes_mut_view(*old(dst)),
        },
{
    if payload.len() > 125 {
        return Err(Error::Encode(owned("websocket control frame payload exceeds 125 bytes")));
    }
    encode_frame(opcode, payload, dst);
    Ok(())
}

/// Writes a close frame.
pub fn encode_close(close: Option<WebSocketClose>, dst: &mut BytesMut) -> (res: Result<()>)
    ensures
        match enc_close(close_view(close)) {
            Some(b) => res is Ok && bytes_mut_view(*final(dst)) == bytes_mut_view(*old(dst)) + b,
            None => (res matches Err(Error::Encode(_))) && bytes_mut_view(*final(dst)) == bytes_mut_view(*old(dst)),
        },
{
    let mut payload: Vec<u8> = Vec::new();
    if let Some(close) = close {
        if !validate_close_code(close.code) {
            return Err(Error::Encode(message_with_number("invalid websocket close status code: ", close.code as u64)));
        }
        payload.push((close.code / 0x100) as u8);
        payload.push((close.code % 0x100) as u8);
        let reason = close.reason.as_str().as_bytes();
        let mut i: usize = 0;
        let ghost head = payload@;
        while i < reason.len()
            invariant
                i <= reason@.len(),
                payload@ == head + reason@.take(i as int),
            decreases reason@.len() - i,
        {
            payload.push(reason[i]);
            assert(reason@.take(i + 1) =~= reason@.take(i as int).push(reason@[i as int]));
            i = i + 1;
        }
        assert(reason@.take(i as int) =~= reason@);
        assert(head =~= be16(close.code as nat));
    } else {
        assert(payload@ =~= Seq::<u8>::empty());
    }
    encode_control_frame(8, payload.as_slice(), dst)
}

} // verus!
