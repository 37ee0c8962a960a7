//! The WebSocket protocol: opening handshake and frames.
use bytes::BytesMut;
use vstd::prelude::*;
use vstd::utf8::*;

use crate::buf::{bytes_mut_as_slice, bytes_mut_split_to, bytes_mut_view};
use crate::codec::{Decoder, Encoder};
use crate::search::{find_from, first_match};
use crate::text::{message_with_text, utf8_string};
use crate::{Error, Result};

pub mod frame;
pub mod handshake;
pub mod laws;

pub use frame::{
    decode_frame, enc_close, enc_control, enc_frame, encode_close, encode_control_frame, encode_frame,
    frame_step, FrameStep, InboundV, OutboundV, WebSocketClose, WebSocketInbound, WebSocketMessage,
    WebSocketOutbound,
};
pub use handshake::{
    encode_handshake_response, parse_handshake, response_bytes, sp_handshake, HandshakeV, WebSocketHandshake,
    WebSocketHandshakeResponse,
};

verus! {

/// Default limit on the size of the Upgrade request head.
pub const DEFAULT_MAX_HTTP_HEADER_LEN: usize = 16384;

/// Default limit on the payload of one frame.
pub const DEFAULT_MAX_FRAME_LEN: usize = 16777216;

/// Where the codec is in the protocol.
#[derive(Clone, Copy, Debug, PartialEq, Eq, Structural)]
pub enum WebSocketState {
    /// Waiting for the HTTP Upgrade request.
    Handshake,
    /// Exchanging frames.
    Frames,
}

/// The end of an HTTP head.
pub open spec fn head_end_pattern() -> Seq<u8> {
    seq![13u8, 10u8, 13u8, 10u8]
}

/// What the handshake decoder makes of the bytes buffered so far.
pub ghost enum HandshakeStep {
    /// The head is incomplete; nothing is consumed.
    NeedMore,
    /// The head exceeds the limit; nothing is consumed.
    TooLarge { current: int },
    /// A head of `len` bytes is consumed and is a valid Upgrade request.
    Accepted { len: int, handshake: HandshakeV },
    /// A head of `len` bytes is consumed but is refused.
    Invalid { len: int },
}

/// The handshake decoding rule: the head ends at the first blank line and
/// must be UTF-8 text that [`sp_handshake`] accepts.
pub open spec fn handshake_step(max: int, s: Seq<u8>) -> HandshakeStep {
    match first_match(s, head_end_pattern()) {
        None => if s.len() > max {
            HandshakeStep::TooLarge { current: s.len() as int }
        } else {
            HandshakeStep::NeedMore
        },
        Some(end) => if end > max {
            HandshakeStep::TooLarge { current: end }
        } else {
            let head = s.take(end + 4);
            if !valid_utf8(head) {
                HandshakeStep::Invalid { len: end + 4 }
            } else {
                match sp_handshake(decode_utf8(head)) {
                    Some(h) => HandshakeStep::Accepted { len: end + 4, handshake: h },
                    None => HandshakeStep::Invalid { len: end + 4 },
                }
            }
        },
    }
}

/// What the codec writes for an outbound message, or `None` when it is refused.
pub open spec fn ws_write(o: OutboundV) -> Option<Seq<u8>> {
    match o {
        OutboundV::HandshakeResponse(r) => Some(response_bytes(r)),
        OutboundV::Text(t) => Some(enc_frame(1, encode_utf8(t))),
        OutboundV::Binary(b) => Some(enc_frame(2, b)),
        OutboundV::Close(c) => enc_close(c),
        OutboundV::Ping(b) => enc_control(9, b),
        OutboundV::Pong(b) => enc_control(10, b),
    }
}

/// Stateful server-side WebSocket codec.
///
/// The codec starts in an HTTP Upgrade handshake state. After a valid
/// WebSocket handshake request is decoded, subsequent reads are decoded as
/// WebSocket frames without replacing the pipeline. This keeps the
/// pipeline statically typed while still supporting the protocol
/// transition that WebSocket requires.
pub struct WebSocketCodec {
    /// Where the codec is in the protocol.
    pub state: WebSocketState,
    max_http_header_len: usize,
    max_frame_len: usize,
    require_masked_client_frames: bool,
}

impl WebSocketCodec {
    /// Where the codec is in the protocol.
    pub closed spec fn spec_state(&self) -> WebSocketState {
        self.state
    }

    /// The largest Upgrade request head accepted.
    pub closed spec fn spec_max_http_header_len(&self) -> usize {
        self.max_http_header_len
    }

    /// The largest frame payload accepted.
    pub closed spec fn spec_max_frame_len(&self) -> usize {
        self.max_frame_len
    }

    /// Whether client frames must be masked.
    pub closed spec fn spec_require_masked_client_frames(&self) -> bool {
        self.require_masked_client_frames
    }

    /// Creates a server-side WebSocket codec.
    pub fn server() -> (r: Self)
        ensures
            r.spec_state() == WebSocketState::Handshake,
            r.spec_max_http_header_len() == DEFAULT_MAX_HTTP_HEADER_LEN,
            r.spec_max_frame_len() == DEFAULT_MAX_FRAME_LEN,
            r.spec_require_masked_client_frames(),
    {
        Self {
            state: WebSocketState::Handshake,
            max_http_header_len: DEFAULT_MAX_HTTP_HEADER_LEN,
            max_frame_len: DEFAULT_MAX_FRAME_LEN,
            require_masked_client_frames: true,
        }
    }

    /// Sets the maximum HTTP Upgrade header size accepted during handshake.
    pub fn max_http_header_len(self, value: usize) -> (r: Self)
        ensures
            r.spec_state() == self.spec_state(),
            r.spec_max_http_header_len() == value,
            r.spec_max_frame_len() == self.spec_max_frame_len(),
            r.spec_require_masked_client_frames() == self.spec_require_masked_client_frames(),
    {
        Self { max_http_header_len: value, ..self }
    }

    /// Sets the maximum WebSocket payload size accepted after handshake.
    pub fn max_frame_len(self, value: usize) -> (r: Self)
        ensures
            r.spec_state() == self.spec_state(),
            r.spec_max_http_header_len() == self.spec_max_http_header_len(),
            r.spec_max_frame_len() == value,
            r.spec_require_masked_client_frames() == self.spec_require_masked_client_frames(),
    {
        Self { max_frame_len: value, ..self }
    }

    /// Controls whether decoded client frames must be masked.
    ///
    /// WebSocket clients are required to mask frames sent to servers. This is
    /// enabled by default. Disabling it is mostly useful for tests or trusted
    /// internal peers.
    pub fn require_masked_client_frames(self, value: bool) -> (r: Self)
        ensures
            r.spec_state() == self.spec_state(),
            r.spec_max_http_header_len() == self.spec_max_http_header_len(),
            r.spec_max_frame_len() == self.spec_max_frame_len(),
            r.spec_require_masked_client_frames() == value,
    {
        Self { require_masked_client_frames: value, ..self }
    }

    /// Takes the Upgrade request out of `src` by the rule [`handshake_step`];
    /// an accepted request moves the codec to frames.
    pub fn decode_handshake(&mut self, src: &mut BytesMut) -> (res: Result<Option<WebSocketInbound>>)
        ensures
            final(self).spec_max_http_header_len() == old(self).spec_max_http_header_len(),
            final(self).spec_max_frame_len() == old(self).spec_max_frame_len(),
            final(self).spec_require_masked_client_frames() == old(self).spec_require_masked_client_frames(),
            ({
                let s = bytes_mut_view(*old(src));
                match handshake_step(old(self).spec_max_http_header_len() as int, s) {
                    HandshakeStep::NeedMore => (res matches Ok(None)) && bytes_mut_view(*final(src)) == s
                        && final(self).spec_state() == old(self).spec_state(),
                    HandshakeStep::TooLarge { current } => (res matches Err(Error::FrameTooLarge { current: c, max: m })
                        && c == current && m == old(self).spec_max_http_header_len()
                        && bytes_mut_view(*final(src)) == s && final(self).spec_state() == old(self).spec_state()),
                    HandshakeStep::Accepted { len, handshake } => (res matches Ok(Some(WebSocketInbound::Handshake(h)))
                        && h@ == handshake && bytes_mut_view(*final(src)) == s.skip(len)
                        && final(self).spec_state() == WebSocketState::Frames),
                    HandshakeStep::Invalid { len } => (res matches Err(Error::Decode(_)))
                        && bytes_mut_view(*final(src)) == s.skip(len) && final(self).spec_state() == old(self).spec_state(),
                }
            }),
    {
        let ghost s = bytes_mut_view(*src);
        let buf = bytes_mut_as_slice(src);
        let pat: [u8; 4] = [13, 10, 13, 10];
        assert(pat@ =~= head_end_pattern());
        assert(s.skip(0) =~= s);
        let end = match find_from(buf, pat.as_slice(), 0) {
            Some(end) => end,
            None => {
                if buf.len() > self.max_http_header_len {
                    return Err(Error::FrameTooLarge { current: buf.len(), max: self.max_http_header_len });
                }
                return Ok(None);
            },
        };
        if end > self.max_http_header_len {
            return Err(Error::FrameTooLarge { current: end, max: self.max_http_header_len });
        }
        let n = buf.len();
        assert(end + 4 <= n);
        let request = bytes_mut_split_to(src, end + 4);
        let text = match utf8_string(bytes_mut_as_slice(&request)) {
            Ok(text) => text,
            Err(message) => return Err(Error::Decode(message_with_text("websocket handshake is not utf-8: ", message.as_str()))),
        };
        let handshake = parse_handshake(text.as_str())?;
        self.state = WebSocketState::Frames;
        Ok(Some(WebSocketInbound::Handshake(handshake)))
    }
}

impl Default for WebSocketCodec {
    fn default() -> (r: Self)
        ensures
            r.spec_state() == WebSocketState::Handshake,
            r.spec_max_http_header_len() == DEFAULT_MAX_HTTP_HEADER_LEN,
            r.spec_max_frame_len() == DEFAULT_MAX_FRAME_LEN,
            r.spec_require_masked_client_frames(),
    {
        Self::server()
    }
}

impl Decoder for WebSocketCodec {
    type Item = WebSocketInbound;

    /// Every configuration can be run.
    open spec fn decodable(&self) -> bool {
        true
    }

    /// In the handshake state, reads the Upgrade request by
    /// [`handshake_step`]; afterwards, reads frames by [`frame_step`].
    fn decode(&mut self, src: &mut BytesMut) -> (res: Result<Option<WebSocketInbound>>)
        ensures
            final(self).spec_max_http_header_len() == old(self).spec_max_http_header_len(),
            final(self).spec_max_frame_len() == old(self).spec_max_frame_len(),
            final(self).spec_require_masked_client_frames() == old(self).spec_require_masked_client_frames(),
            ({
                let s = bytes_mut_view(*old(src));
                if old(self).spec_state() == WebSocketState::Handshake {
                    match handshake_step(old(self).spec_max_http_header_len() as int, s) {
                        HandshakeStep::NeedMore => (res matches Ok(None)) && bytes_mut_view(*final(src)) == s
                            && final(self).spec_state() == old(self).spec_state(),
                        HandshakeStep::TooLarge { current } => (res matches Err(Error::FrameTooLarge { current: c, max: m })
                            && c == current && m == old(self).spec_max_http_header_len()
                            && bytes_mut_view(*final(src)) == s && final(self).spec_state() == old(self).spec_state()),
                        HandshakeStep::Accepted { len, handshake } => (res matches Ok(Some(WebSocketInbound::Handshake(h)))
                            && h@ == handshake && bytes_mut_view(*final(src)) == s.skip(len)
                            && final(self).spec_state() == WebSocketState::Frames),
                        HandshakeStep::Invalid { len } => (res matches Err(Error::Decode(_)))
                            && bytes_mut_view(*final(src)) == s.skip(len) && final(self).spec_state() == old(self).spec_state(),
                    }
                } else {
                    &&& final(self).spec_state() == old(self).spec_state()
                    &&& match frame_step(
                        old(self).spec_require_masked_client_frames(),
                        old(self).spec_max_frame_len() as int,
                        s,
                    ) {
                        FrameStep::NeedMore => (res matches Ok(None) && bytes_mut_view(*final(src)) == s),
                        FrameStep::TooLarge { current } => (res matches Err(Error::FrameTooLarge { current: c, max: m })
                            && c == current && m == old(self).spec_max_frame_len() && bytes_mut_view(*final(src)) == s),
                        FrameStep::Malformed => (res matches Err(Error::Decode(_)) && bytes_mut_view(*final(src)) == s),
                        FrameStep::Message { len, msg } => (res matches Ok(Some(v)) && v@ == msg
                            && bytes_mut_view(*final(src)) == s.skip(len)),
                        FrameStep::Invalid { len } => (res matches Err(Error::Decode(_))
                            && bytes_mut_view(*final(src)) == s.skip(len)),
                    }
                }
            }),
    {
        match self.state {
            WebSocketState::Handshake => self.decode_handshake(src),
            WebSocketState::Frames => decode_frame(self.require_masked_client_frames, self.max_frame_len, src),
        }
    }
}

impl Encoder<WebSocketOutbound> for WebSocketCodec {
    /// Appends what [`ws_write`] gives; a handshake response moves the codec
    /// to frames.
    fn encode(&mut self, item: WebSocketOutbound, dst: &mut BytesMut) -> (res: Result<()>)
        ensures
            final(self).spec_max_http_header_len() == old(self).spec_max_http_header_len(),
            final(self).spec_max_frame_len() == old(self).spec_max_frame_len(),
            final(self).spec_require_masked_client_frames() == old(self).spec_require_masked_client_frames(),
            final(self).spec_state() == (if item@ is HandshakeResponse {
                WebSocketState::Frames
            } else {
                old(self).spec_state()
            }),
            match ws_write(item@) {
                Some(b) => res is Ok && bytes_mut_view(*final(dst)) == bytes_mut_view(*old(dst)) + b,
                None => (res matches Err(Error::Encode(_))) && bytes_mut_view(*final(dst)) == bytes_mut_view(*old(dst)),
            },
    {
        match item {
            WebSocketOutbound::HandshakeResponse(response) => {
                encode_handshake_response(response, dst);
                self.state = WebSocketState::Frames;
                Ok(())
            },
            WebSocketOutbound::Text(text) => {
                encode_frame(1, text.as_str().as_bytes(), dst);
                Ok(())
            },
            WebSocketOutbound::Binary(bytes) => {
                encode_frame(2, crate::buf::bytes_as_slice(&bytes), dst);
                Ok(())
            },
            WebSocketOutbound::Close(close) => encode_close(close, dst),
            WebSocketOutbound::Ping(bytes) => encode_control_frame(9, crate::buf::bytes_as_slice(&bytes), dst),
            WebSocketOutbound::Pong(bytes) => encode_control_frame(10, crate::buf::bytes_as_slice(&bytes), dst),
        }
    }
}

impl Encoder<WebSocketMessage> for WebSocketCodec {
    /// Encodes the message as the matching [`WebSocketOutbound`].
    fn encode(&mut self, item: WebSocketMessage, dst: &mut BytesMut) -> (res: Result<()>)
        ensures
            *final(self) == *old(self),
            match ws_write(item@) {
                Some(b) => res is Ok && bytes_mut_view(*final(dst)) == bytes_mut_view(*old(dst)) + b,
                None => (res matches Err(Error::Encode(_))) && bytes_mut_view(*final(dst)) == bytes_mut_view(*old(dst)),
            },
    {
        let out = WebSocketOutbound::from(item);
        assert(out@ == item@);
        let r = Encoder::<WebSocketOutbound>::encode(self, out, dst);
        r
    }
}

} // verus!
