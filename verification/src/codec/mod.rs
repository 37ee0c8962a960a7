//! Codecs that frame byte streams and datagrams into typed messages.
use bytes::BytesMut;
use vstd::prelude::*;

use crate::buf::bytes_mut_view;
use crate::Result;

pub mod byte_array;
pub mod bytes_datagram;
pub mod delimiter_based_frame;
pub mod head;
pub mod http;
pub mod json;
pub mod fixed_length_frame;
pub mod length_field_based_frame;
pub mod line;
pub mod mqtt;
pub mod utf8_datagram;
pub mod websocket;

pub use byte_array::{ByteArrayDecoder, ByteArrayEncoder};
pub use bytes_datagram::BytesDatagramCodec;
pub use delimiter_based_frame::DelimiterBasedFrameDecoder;
pub use fixed_length_frame::FixedLengthFrameDecoder;
pub use http::{HttpCodec, HttpRequest, HttpResponse};
pub use json::{JsonDecode, JsonEncode};
pub use mqtt::{MqttCodec, MqttPacket};
pub use length_field_based_frame::{ByteOrder, LengthFieldBasedFrameDecoder, LengthFieldPrepender};
pub use line::LineCodec;
pub use utf8_datagram::Utf8DatagramCodec;
pub use websocket::{
    WebSocketClose, WebSocketCodec, WebSocketHandshake, WebSocketHandshakeResponse, WebSocketInbound,
    WebSocketMessage, WebSocketOutbound,
};

verus! {

/// Decoder for byte-stream transports such as TCP.
///
/// Implementations consume bytes from `src` only when they can produce a full
/// item. Returning `Ok(None)` means more bytes are needed.
pub trait Decoder: Send + 'static {
    /// Message type produced by this decoder.
    type Item: Send + 'static;

    /// The decoders that can be run: a configuration outside it makes
    /// decoding panic.
    spec fn decodable(&self) -> bool;

    /// Attempts to decode one message from the source buffer; when it
    /// needs more bytes (`Ok(None)`) the buffer is left as it was.
    fn decode(&mut self, src: &mut BytesMut) -> (res: Result<Option<Self::Item>>)
        requires
            old(self).decodable(),
        ensures
            res matches Ok(None) ==> bytes_mut_view(*final(src)) == bytes_mut_view(*old(src)),
    ;
}

/// Encoder for byte-stream transports such as TCP.
pub trait Encoder<I>: Send + 'static {
    /// Encodes one item into the destination buffer.
    fn encode(&mut self, item: I, dst: &mut BytesMut) -> Result<()>;
}

/// Decoder for datagram transports such as UDP.
///
/// A datagram decoder receives exactly one datagram at a time.
pub trait DatagramDecoder: Send + 'static {
    /// Message type produced by this decoder.
    type Item: Send + 'static;

    /// Decodes one datagram payload.
    fn decode_datagram(&mut self, src: &[u8]) -> Result<Self::Item>;
}

/// Encoder for datagram transports such as UDP.
pub trait DatagramEncoder<I>: Send + 'static {
    /// Encodes one datagram payload into the destination buffer.
    fn encode_datagram(&mut self, item: I, dst: &mut BytesMut) -> Result<()>;
}

} // verus!
