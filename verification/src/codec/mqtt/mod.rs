//! MQTT 5 control packets.
use bytes::BytesMut;
use vstd::prelude::*;
use vstd::slice::slice_subrange;

use crate::buf::{bytes_mut_as_slice, bytes_mut_extend, bytes_mut_split_to, bytes_mut_view};
use crate::codec::mqtt::decode::{decode_packet, lemma_sp_packet_len, sp_packet};
use crate::codec::mqtt::encode::{enc_packet, encode_packet};
use crate::codec::mqtt::types::PacketV;
use crate::codec::mqtt::wire::{
    decode_remaining_length_prefix, enc_varint, lemma_pow128_facts, lemma_varint_complete, pow128,
    varint_scan, varint_size, varint_value, write_u8, write_variable_integer, Reader, VarintScan,
    MAX_REMAINING_LENGTH,
};
use crate::codec::{Decoder, Encoder};
use crate::text::{message_with_number, message_with_text, owned};
use crate::{Error, Result};

pub mod decode;
pub mod encode;
pub mod laws;
pub mod property;
pub mod types;
pub mod wire;

pub use types::{
    AckPacket, AuthPacket, ConnAckPacket, ConnectPacket, DisconnectPacket, MqttPacket,
    MqttProperty, PublishPacket, QoS, SubAckPacket, SubscribePacket, Subscription,
    SubscriptionOptions, UnsubAckPacket, UnsubscribePacket, Will,
};

verus! {

/// What the MQTT codec makes of the bytes buffered so far.
pub ghost enum MqttStep {
    /// More bytes are needed; nothing is consumed.
    NeedMore,
    /// The Remaining Length exceeds the limit; nothing is consumed.
    TooLarge { current: int },
    /// The Remaining Length is malformed or not minimal; nothing is consumed.
    Malformed,
    /// A whole packet of `len` bytes is consumed and decodes as `packet`.
    Packet { len: int, packet: PacketV },
    /// A whole packet of `len` bytes is consumed but its body is refused.
    Invalid { len: int },
}

/// The decoding rule of [`MqttCodec`] with limit `max` on the buffered bytes
/// `s`: a fixed header byte, a Remaining Length, then a body of that length
/// that must decode exactly.
pub open spec fn mqtt_step(max: int, s: Seq<u8>) -> MqttStep {
    if s.len() < 2 {
        MqttStep::NeedMore
    } else {
        let r = s.skip(1);
        match varint_scan(r, 0) {
            VarintScan::Incomplete => MqttStep::NeedMore,
            VarintScan::Malformed => MqttStep::Malformed,
            VarintScan::Complete { len } => {
                let v = varint_value(r, len as nat);
                if varint_size(v) != len {
                    MqttStep::Malformed
                } else if v > max {
                    MqttStep::TooLarge { current: v as int }
                } else if s.len() < 1 + len + v {
                    MqttStep::NeedMore
                } else {
                    let end = 1 + len + v;
                    let body = s.subrange(1 + len, end);
                    match sp_packet(s[0] >> 4, s[0] & 0x0f, body) {
                        Some((p, k)) => if k == body.len() {
                            MqttStep::Packet { len: end, packet: p }
                        } else {
                            MqttStep::Invalid { len: end }
                        },
                        None => MqttStep::Invalid { len: end },
                    }
                }
            },
        }
    }
}

/// What the MQTT codec writes for a packet whose view is `p`, with limit
/// `max`: `Ok(frame)` or the error, and whether the header byte was written
/// before the error.
pub ghost enum MqttWrite {
    /// The whole frame is appended.
    Frame { bytes: Seq<u8> },
    /// The packet cannot be encoded; nothing is appended.
    Unencodable,
    /// The body exceeds the limit; nothing is appended.
    TooLarge { current: int },
    /// The body length is no variable byte integer; the header byte alone is appended.
    LengthRefused { header: u8 },
}

/// The encoding rule of [`MqttCodec`].
pub open spec fn mqtt_write(max: int, p: PacketV) -> MqttWrite {
    match enc_packet(p) {
        None => MqttWrite::Unencodable,
        Some((t, f, body)) => {
            let header = (t << 4) | f;
            if body.len() > max {
                MqttWrite::TooLarge { current: body.len() as int }
            } else {
                match enc_varint(((body.len() as u32) as nat)) {
                    Some(len) => MqttWrite::Frame { bytes: seq![header] + len + body },
                    None => MqttWrite::LengthRefused { header },
                }
            }
        },
    }
}

/// MQTT 5 packet codec for TCP stream pipelines.
///
/// The codec handles MQTT fixed headers, Remaining Length framing, MQTT 5
/// variable byte integers, supported control packet bodies, and MQTT 5
/// properties. It does not maintain broker/client session state; semantic
/// validation that depends on connection state belongs in a handler.
pub struct MqttCodec {
    max_packet_size: usize,
}

impl MqttCodec {
    /// The largest packet body accepted.
    pub closed spec fn spec_max_packet_size(&self) -> usize {
        self.max_packet_size
    }

    /// Creates a codec that accepts packets up to the MQTT Remaining Length maximum.
    pub fn new() -> (r: Self)
        ensures
            r.spec_max_packet_size() == MAX_REMAINING_LENGTH,
    {
        Self { max_packet_size: MAX_REMAINING_LENGTH }
    }

    /// Creates a codec with a smaller maximum MQTT packet body size.
    pub fn with_max_packet_size(max_packet_size: usize) -> (r: Self)
        ensures
            r.spec_max_packet_size() == max_packet_size,
    {
        Self { max_packet_size }
    }
}

impl Default for MqttCodec {
    fn default() -> (r: Self)
        ensures
            r.spec_max_packet_size() == MAX_REMAINING_LENGTH,
    {
        Self::new()
    }
}

/// Decodes a whole packet body; bytes left over are refused.
fn decode_body(fixed_header: u8, body: &[u8]) -> (res: Result<MqttPacket>)
    ensures
        match sp_packet(fixed_header >> 4, fixed_header & 0x0f, body@) {
            Some((p, k)) => if k == body@.len() {
                res matches Ok(q) && q@ == p
            } else {
                res matches Err(Error::Decode(_))
            },
            None => res matches Err(Error::Decode(_)),
        },
{
    proof {
        lemma_sp_packet_len(fixed_header >> 4, fixed_header & 0x0f, body@);
    }
    let mut reader = Reader::new(body);
    let packet_type = fixed_header >> 4;
    let flags = fixed_header & 0x0f;
    let decoded = decode_packet(packet_type, flags, &mut reader)?;
    if reader.remaining() != 0 {
        let count = message_with_number("MQTT packet has ", reader.remaining() as u64);
        return Err(Error::Decode(message_with_text(count.as_str(), " trailing bytes")));
    }
    Ok(decoded)
}

impl Decoder for MqttCodec {
    type Item = MqttPacket;

    /// Every configuration can be run.
    open spec fn decodable(&self) -> bool {
        true
    }

    /// Takes one packet out of `src` by the rule [`mqtt_step`].
    #[verifier::rlimit(30)]
    fn decode(&mut self, src: &mut BytesMut) -> (res: Result<Option<MqttPacket>>)
        ensures
            *final(self) == *old(self),
            ({
                let s = bytes_mut_view(*old(src));
                match mqtt_step(old(self).spec_max_packet_size() as int, s) {
                    MqttStep::NeedMore => (res matches Ok(None) && bytes_mut_view(*final(src)) == s),
                    MqttStep::TooLarge { current } => (res matches Err(Error::FrameTooLarge { current: c, max: m })
                        && c == current && m == old(self).spec_max_packet_size()
                        && bytes_mut_view(*final(src)) == s),
                    MqttStep::Malformed => (res matches Err(Error::Decode(_)) && bytes_mut_view(*final(src)) == s),
                    MqttStep::Packet { len, packet } => (res matches Ok(Some(p)) && p@ == packet
                        && bytes_mut_view(*final(src)) == s.skip(len)),
                    MqttStep::Invalid { len } => (res matches Err(Error::Decode(_))
                        && bytes_mut_view(*final(src)) == s.skip(len)),
                }
            }),
    {
        let ghost s = bytes_mut_view(*src);
        let slice = bytes_mut_as_slice(src);
        let n = slice.len();
        if n < 2 {
            return Ok(None);
        }
        let fixed_header = slice[0];
        let tail = slice_subrange(slice, 1, n);
        proof {
            assert(tail@ =~= s.skip(1));
        }
        let (remaining_len, remaining_len_bytes) = match decode_remaining_length_prefix(tail)? {
            Some(v) => v,
            None => return Ok(None),
        };
        proof {
            lemma_varint_complete(tail@);
            lemma_pow128_facts(4);
        }
        if remaining_len > self.max_packet_size {
            return Err(Error::FrameTooLarge { current: remaining_len, max: self.max_packet_size });
        }
        let header_len = 1 + remaining_len_bytes;
        let packet_len = match header_len.checked_add(remaining_len) {
            Some(v) => v,
            None => return Err(Error::Decode(owned("MQTT packet length overflow"))),
        };
        if n < packet_len {
            return Ok(None);
        }
        let packet = bytes_mut_split_to(src, packet_len);
        let packet_bytes = bytes_mut_as_slice(&packet);
        let body = slice_subrange(packet_bytes, header_len, packet_len);
        proof {
            assert(body@ =~= s.subrange(header_len as int, packet_len as int));
        }
        let decoded = decode_body(fixed_header, body)?;
        Ok(Some(decoded))
    }
}

impl Encoder<MqttPacket> for MqttCodec {
    /// Appends one packet to `dst` by the rule [`mqtt_write`].
    fn encode(&mut self, item: MqttPacket, dst: &mut BytesMut) -> (res: Result<()>)
        ensures
            *final(self) == *old(self),
            ({
                let d = bytes_mut_view(*old(dst));
                match mqtt_write(old(self).spec_max_packet_size() as int, item@) {
                    MqttWrite::Frame { bytes } => res is Ok && bytes_mut_view(*final(dst)) == d + bytes,
                    MqttWrite::Unencodable => (res matches Err(Error::Encode(_))) && bytes_mut_view(*final(dst)) == d,
                    MqttWrite::TooLarge { current } => (res matches Err(Error::FrameTooLarge { current: c, max: m })
                        && c == current && m == old(self).spec_max_packet_size()
                        && bytes_mut_view(*final(dst)) == d),
                    MqttWrite::LengthRefused { header } => (res matches Err(Error::Encode(_)))
                        && bytes_mut_view(*final(dst)) == d + seq![header],
                }
            }),
    {
        let ghost d = bytes_mut_view(*dst);
        let (packet_type, flags, body) = encode_packet(item)?;
        let bytes = bytes_mut_as_slice(&body);
        if bytes.len() > self.max_packet_size {
            return Err(Error::FrameTooLarge { current: bytes.len(), max: self.max_packet_size });
        }
        write_u8((packet_type << 4) | flags, dst);
        #[verifier::truncate]
        let body_len = bytes.len() as u32;
        write_variable_integer(body_len, dst)?;
        bytes_mut_extend(dst, bytes);
        proof {
            let header = (packet_type << 4) | flags;
            let len = enc_varint(body_len as nat)->0;
            assert(bytes_mut_view(*dst) =~= d + (seq![header] + len + bytes@));
        }
        Ok(())
    }
}

} // verus!
