//! MQTT 5 properties.
use bytes::{Bytes, BytesMut};
use vstd::prelude::*;
use vstd::slice::slice_subrange;

use crate::buf::{bytes_mut_as_slice, bytes_mut_extend, bytes_mut_new, bytes_mut_view, bytes_view};
use crate::codec::mqtt::types::{properties_view, MqttProperty, PropertyV};
use crate::codec::mqtt::wire::{
    cat, enc_binary, enc_string, enc_u16, enc_u32, enc_varint, lemma_skip_skip, sp_binary, sp_string, sp_u16,
    sp_u32, sp_u8, sp_varint, write_binary_data, write_u16, write_u32, write_u8, write_utf8_string,
    write_variable_integer, Reader, lemma_sp_varint_len, lemma_pow128_facts,
};
use crate::text::{message_with_number, message_with_text, owned};
use crate::{Error, Result};

verus! {

broadcast use lemma_skip_skip;

/// A property whose value is one byte.
pub open spec fn p_u8(r: Seq<u8>, k: int, f: spec_fn(u8) -> PropertyV) -> Option<(PropertyV, int)> {
    match sp_u8(r) {
        Some((v, j)) => Some((f(v), k + j)),
        None => None,
    }
}

/// A property whose value is a two-byte integer.
pub open spec fn p_u16(r: Seq<u8>, k: int, f: spec_fn(u16) -> PropertyV) -> Option<(PropertyV, int)> {
    match sp_u16(r) {
        Some((v, j)) => Some((f(v), k + j)),
        None => None,
    }
}

/// A property whose value is a four-byte integer.
pub open spec fn p_u32(r: Seq<u8>, k: int, f: spec_fn(u32) -> PropertyV) -> Option<(PropertyV, int)> {
    match sp_u32(r) {
        Some((v, j)) => Some((f(v), k + j)),
        None => None,
    }
}

/// A property whose value is a string.
pub open spec fn p_str(r: Seq<u8>, k: int, f: spec_fn(Seq<char>) -> PropertyV) -> Option<(PropertyV, int)> {
    match sp_string(r) {
        Some((v, j)) => Some((f(v), k + j)),
        None => None,
    }
}

/// A property whose value is binary data.
pub open spec fn p_bin(r: Seq<u8>, k: int, f: spec_fn(Seq<u8>) -> PropertyV) -> Option<(PropertyV, int)> {
    match sp_binary(r) {
        Some((v, j)) => Some((f(v), k + j)),
        None => None,
    }
}

/// A property whose value is a variable byte integer.
pub open spec fn p_varint(r: Seq<u8>, k: int, f: spec_fn(u32) -> PropertyV) -> Option<(PropertyV, int)> {
    match sp_varint(r) {
        Some((v, j)) => Some((f(v as u32), k + j)),
        None => None,
    }
}

/// Reading one property: its identifier (a variable byte integer, taken
/// modulo 256), then the value of that identifier's type.
pub open spec fn sp_property(s: Seq<u8>) -> Option<(PropertyV, int)> {
    match sp_varint(s) {
        Some((idv, k)) => match sp_property_value(((idv as u32) as u8), s.skip(k)) {
            Some((p, j)) => Some((p, k + j)),
            None => None,
        },
        None => None,
    }
}

/// Reading the value of a property with identifier `id`.
#[verifier::opaque]
pub open spec fn sp_property_value(id: u8, r: Seq<u8>) -> Option<(PropertyV, int)> {
    if id == 0x01 {
        p_u8(r, 0, |v: u8| PropertyV::PayloadFormatIndicator(v))
    } else if id == 0x02 {
        p_u32(r, 0, |v: u32| PropertyV::MessageExpiryInterval(v))
    } else if id == 0x03 {
        p_str(r, 0, |v: Seq<char>| PropertyV::ContentType(v))
    } else if id == 0x08 {
        p_str(r, 0, |v: Seq<char>| PropertyV::ResponseTopic(v))
    } else if id == 0x09 {
        p_bin(r, 0, |v: Seq<u8>| PropertyV::CorrelationData(v))
    } else if id == 0x0b {
        p_varint(r, 0, |v: u32| PropertyV::SubscriptionIdentifier(v))
    } else if id == 0x11 {
        p_u32(r, 0, |v: u32| PropertyV::SessionExpiryInterval(v))
    } else if id == 0x12 {
        p_str(r, 0, |v: Seq<char>| PropertyV::AssignedClientIdentifier(v))
    } else if id == 0x13 {
        p_u16(r, 0, |v: u16| PropertyV::ServerKeepAlive(v))
    } else if id == 0x15 {
        p_str(r, 0, |v: Seq<char>| PropertyV::AuthenticationMethod(v))
    } else if id == 0x16 {
        p_bin(r, 0, |v: Seq<u8>| PropertyV::AuthenticationData(v))
    } else if id == 0x17 {
        p_u8(r, 0, |v: u8| PropertyV::RequestProblemInformation(v))
    } else if id == 0x18 {
        p_u32(r, 0, |v: u32| PropertyV::WillDelayInterval(v))
    } else if id == 0x19 {
        p_u8(r, 0, |v: u8| PropertyV::RequestResponseInformation(v))
    } else if id == 0x1a {
        p_str(r, 0, |v: Seq<char>| PropertyV::ResponseInformation(v))
    } else if id == 0x1c {
        p_str(r, 0, |v: Seq<char>| PropertyV::ServerReference(v))
    } else if id == 0x1f {
        p_str(r, 0, |v: Seq<char>| PropertyV::ReasonString(v))
    } else if id == 0x21 {
        p_u16(r, 0, |v: u16| PropertyV::ReceiveMaximum(v))
    } else if id == 0x22 {
        p_u16(r, 0, |v: u16| PropertyV::TopicAliasMaximum(v))
    } else if id == 0x23 {
        p_u16(r, 0, |v: u16| PropertyV::TopicAlias(v))
    } else if id == 0x24 {
        p_u8(r, 0, |v: u8| PropertyV::MaximumQoS(v))
    } else if id == 0x25 {
        p_u8(r, 0, |v: u8| PropertyV::RetainAvailable(v))
    } else if id == 0x26 {
        match sp_string(r) {
            Some((key, j1)) => match sp_string(r.skip(j1)) {
                Some((value, j2)) => Some((PropertyV::UserProperty(key, value), j1 + j2)),
                None => None,
            },
            None => None,
        }
    } else if id == 0x27 {
        p_u32(r, 0, |v: u32| PropertyV::MaximumPacketSize(v))
    } else if id == 0x28 {
        p_u8(r, 0, |v: u8| PropertyV::WildcardSubscriptionAvailable(v))
    } else if id == 0x29 {
        p_u8(r, 0, |v: u8| PropertyV::SubscriptionIdentifierAvailable(v))
    } else if id == 0x2a {
        p_u8(r, 0, |v: u8| PropertyV::SharedSubscriptionAvailable(v))
    } else {
        None
    }
}

/// Reading properties until `b` is used up.
pub open spec fn sp_property_list(b: Seq<u8>) -> Option<Seq<PropertyV>>
    decreases b.len(),
{
    if b.len() == 0 {
        Some(Seq::empty())
    } else {
        match sp_property(b) {
            Some((p, k)) => if 0 < k <= b.len() {
                match sp_property_list(b.skip(k)) {
                    Some(ps) => Some(seq![p] + ps),
                    None => None,
                }
            } else {
                None
            },
            None => None,
        }
    }
}

/// Reading a property block: its length, then that many bytes of properties.
pub open spec fn sp_properties(s: Seq<u8>) -> Option<(Seq<PropertyV>, int)> {
    match sp_varint(s) {
        Some((len, k)) => if k + len <= s.len() {
            match sp_property_list(s.subrange(k, k + len)) {
                Some(ps) => Some((ps, k + len)),
                None => None,
            }
        } else {
            None
        },
        None => None,
    }
}

/// The encoding of one property: identifier, then value.
#[verifier::opaque]
pub open spec fn enc_property(p: PropertyV) -> Option<Seq<u8>> {
    match p {
        PropertyV::PayloadFormatIndicator(v) => cat(Some(seq![0x01u8]), Some(seq![v])),
        PropertyV::MessageExpiryInterval(v) => cat(Some(seq![0x02u8]), Some(enc_u32(v))),
        PropertyV::ContentType(v) => cat(Some(seq![0x03u8]), enc_string(v)),
        PropertyV::ResponseTopic(v) => cat(Some(seq![0x08u8]), enc_string(v)),
        PropertyV::CorrelationData(v) => cat(Some(seq![0x09u8]), enc_binary(v)),
        PropertyV::SubscriptionIdentifier(v) => cat(Some(seq![0x0bu8]), enc_varint(v as nat)),
        PropertyV::SessionExpiryInterval(v) => cat(Some(seq![0x11u8]), Some(enc_u32(v))),
        PropertyV::AssignedClientIdentifier(v) => cat(Some(seq![0x12u8]), enc_string(v)),
        PropertyV::ServerKeepAlive(v) => cat(Some(seq![0x13u8]), Some(enc_u16(v))),
        PropertyV::AuthenticationMethod(v) => cat(Some(seq![0x15u8]), enc_string(v)),
        PropertyV::AuthenticationData(v) => cat(Some(seq![0x16u8]), enc_binary(v)),
        PropertyV::RequestProblemInformation(v) => cat(Some(seq![0x17u8]), Some(seq![v])),
        PropertyV::WillDelayInterval(v) => cat(Some(seq![0x18u8]), Some(enc_u32(v))),
        PropertyV::RequestResponseInformation(v) => cat(Some(seq![0x19u8]), Some(seq![v])),
        PropertyV::ResponseInformation(v) => cat(Some(seq![0x1au8]), enc_string(v)),
        PropertyV::ServerReference(v) => cat(Some(seq![0x1cu8]), enc_string(v)),
        PropertyV::ReasonString(v) => cat(Some(seq![0x1fu8]), enc_string(v)),
        PropertyV::ReceiveMaximum(v) => cat(Some(seq![0x21u8]), Some(enc_u16(v))),
        PropertyV::TopicAliasMaximum(v) => cat(Some(seq![0x22u8]), Some(enc_u16(v))),
        PropertyV::TopicAlias(v) => cat(Some(seq![0x23u8]), Some(enc_u16(v))),
        PropertyV::MaximumQoS(v) => cat(Some(seq![0x24u8]), Some(seq![v])),
        PropertyV::RetainAvailable(v) => cat(Some(seq![0x25u8]), Some(seq![v])),
        PropertyV::UserProperty(key, value) => cat(cat(Some(seq![0x26u8]), enc_string(key)), enc_string(value)),
        PropertyV::MaximumPacketSize(v) => cat(Some(seq![0x27u8]), Some(enc_u32(v))),
        PropertyV::WildcardSubscriptionAvailable(v) => cat(Some(seq![0x28u8]), Some(seq![v])),
        PropertyV::SubscriptionIdentifierAvailable(v) => cat(Some(seq![0x29u8]), Some(seq![v])),
        PropertyV::SharedSubscriptionAvailable(v) => cat(Some(seq![0x2au8]), Some(seq![v])),
    }
}

/// The encodings of properties, one after another.
pub open spec fn enc_property_list(ps: Seq<PropertyV>) -> Option<Seq<u8>>
    decreases ps.len(),
{
    if ps.len() == 0 {
        Some(Seq::empty())
    } else {
        cat(enc_property_list(ps.drop_last()), enc_property(ps.last()))
    }
}

/// A property block: the length of the encoded properties (as the `u32`
/// the encoder computes), then the properties.
pub open spec fn enc_properties(ps: Seq<PropertyV>) -> Option<Seq<u8>> {
    match enc_property_list(ps) {
        Some(b) => cat(enc_varint(((b.len() as u32) as nat)), Some(b)),
        None => None,
    }
}

/// Reads one property.
pub(crate) fn decode_property(reader: &mut Reader<'_>) -> (res: Result<MqttProperty>)
    requires
        old(reader).wf(),
    ensures
        final(reader).wf(),
        final(reader).src == old(reader).src,
        match sp_property(old(reader).rest()) {
            Some((v, k)) => (res matches Ok(p) && p@ == v) && final(reader).rest() == old(reader).rest().skip(k),
            None => res matches Err(Error::Decode(_)),
        },
{
    let ghost r0 = reader.rest();
    let idv = reader.read_variable_integer()?;
    proof {
        lemma_sp_varint_len(r0);
    }
    let id = #[verifier::truncate] (idv as u8);
    proof {
        lemma_sp_value_len(id, reader.rest());
    }
    decode_property_value(id, reader)
}

/// Reads the value of a property with identifier `id`.
#[verifier::rlimit(50)]
fn decode_property_value(id: u8, reader: &mut Reader<'_>) -> (res: Result<MqttProperty>)
    requires
        old(reader).wf(),
    ensures
        final(reader).wf(),
        final(reader).src == old(reader).src,
        match sp_property_value(id, old(reader).rest()) {
            Some((v, k)) => (res matches Ok(p) && p@ == v) && final(reader).rest() == old(reader).rest().skip(k),
            None => res matches Err(Error::Decode(_)),
        },
{
    proof {
        reveal(sp_property_value);
    }
    match id {
        0x01 => Ok(MqttProperty::PayloadFormatIndicator(reader.read_u8()?)),
        0x02 => Ok(MqttProperty::MessageExpiryInterval(reader.read_u32()?)),
        0x03 => Ok(MqttProperty::ContentType(reader.read_utf8_string()?)),
        0x08 => Ok(MqttProperty::ResponseTopic(reader.read_utf8_string()?)),
        0x09 => Ok(MqttProperty::CorrelationData(reader.read_binary_data()?)),
        0x0b => Ok(MqttProperty::SubscriptionIdentifier(reader.read_variable_integer()?)),
        0x11 => Ok(MqttProperty::SessionExpiryInterval(reader.read_u32()?)),
        0x12 => Ok(MqttProperty::AssignedClientIdentifier(reader.read_utf8_string()?)),
        0x13 => Ok(MqttProperty::ServerKeepAlive(reader.read_u16()?)),
        0x15 => Ok(MqttProperty::AuthenticationMethod(reader.read_utf8_string()?)),
        0x16 => Ok(MqttProperty::AuthenticationData(reader.read_binary_data()?)),
        0x17 => Ok(MqttProperty::RequestProblemInformation(reader.read_u8()?)),
        0x18 => Ok(MqttProperty::WillDelayInterval(reader.read_u32()?)),
        0x19 => Ok(MqttProperty::RequestResponseInformation(reader.read_u8()?)),
        0x1a => Ok(MqttProperty::ResponseInformation(reader.read_utf8_string()?)),
        0x1c => Ok(MqttProperty::ServerReference(reader.read_utf8_string()?)),
        0x1f => Ok(MqttProperty::ReasonString(reader.read_utf8_string()?)),
        0x21 => Ok(MqttProperty::ReceiveMaximum(reader.read_u16()?)),
        0x22 => Ok(MqttProperty::TopicAliasMaximum(reader.read_u16()?)),
        0x23 => Ok(MqttProperty::TopicAlias(reader.read_u16()?)),
        0x24 => Ok(MqttProperty::MaximumQoS(reader.read_u8()?)),
        0x25 => Ok(MqttProperty::RetainAvailable(reader.read_u8()?)),
        0x26 => {
            let key = reader.read_utf8_string()?;
            let value = reader.read_utf8_string()?;
            Ok(MqttProperty::UserProperty(key, value))
        },
        0x27 => Ok(MqttProperty::MaximumPacketSize(reader.read_u32()?)),
        0x28 => Ok(MqttProperty::WildcardSubscriptionAvailable(reader.read_u8()?)),
        0x29 => Ok(MqttProperty::SubscriptionIdentifierAvailable(reader.read_u8()?)),
        0x2a => Ok(MqttProperty::SharedSubscriptionAvailable(reader.read_u8()?)),
        _ => Err(Error::Decode(message_with_number("unknown MQTT v5 property id: ", id as u64))),
    }
}

/// The one-byte encoding of an identifier below 128.
pub open spec fn id_byte(id: u8) -> Seq<u8> {
    seq![id]
}

/// Writes an identifier and a one-byte value.
fn write_id_u8(id: u8, value: u8, dst: &mut BytesMut)
    requires
        id < 128,
    ensures
        bytes_mut_view(*final(dst)) == bytes_mut_view(*old(dst)) + seq![id] + seq![value],
{
    write_u8(id, dst);
    write_u8(value, dst);
}

/// Writes an identifier and a two-byte value.
fn write_id_u16(id: u8, value: u16, dst: &mut BytesMut)
    requires
        id < 128,
    ensures
        bytes_mut_view(*final(dst)) == bytes_mut_view(*old(dst)) + seq![id] + enc_u16(value),
{
    write_u8(id, dst);
    write_u16(value, dst);
}

/// Writes an identifier and a four-byte value.
fn write_id_u32(id: u8, value: u32, dst: &mut BytesMut)
    requires
        id < 128,
    ensures
        bytes_mut_view(*final(dst)) == bytes_mut_view(*old(dst)) + seq![id] + enc_u32(value),
{
    write_u8(id, dst);
    write_u32(value, dst);
}

/// Writes an identifier and a string.
fn write_id_string(id: u8, value: &str, dst: &mut BytesMut) -> (res: Result<()>)
    requires
        id < 128,
    ensures
        match enc_string(value@) {
            Some(b) => res is Ok && bytes_mut_view(*final(dst)) == bytes_mut_view(*old(dst)) + seq![id] + b,
            None => res matches Err(Error::Encode(_)),
        },
{
    write_u8(id, dst);
    write_utf8_string(value, dst)
}

/// Writes an identifier and binary data.
fn write_id_binary(id: u8, value: &Bytes, dst: &mut BytesMut) -> (res: Result<()>)
    requires
        id < 128,
    ensures
        match enc_binary(bytes_view(*value)) {
            Some(b) => res is Ok && bytes_mut_view(*final(dst)) == bytes_mut_view(*old(dst)) + seq![id] + b,
            None => res matches Err(Error::Encode(_)),
        },
{
    write_u8(id, dst);
    write_binary_data(value, dst)
}

/// Writes an identifier and a variable byte integer.
fn write_id_varint(id: u8, value: u32, dst: &mut BytesMut) -> (res: Result<()>)
    requires
        id < 128,
    ensures
        match enc_varint(value as nat) {
            Some(b) => res is Ok && bytes_mut_view(*final(dst)) == bytes_mut_view(*old(dst)) + seq![id] + b,
            None => res matches Err(Error::Encode(_)),
        },
{
    write_u8(id, dst);
    write_variable_integer(value, dst)
}

/// Writes one property.
#[verifier::rlimit(50)]
pub(crate) fn encode_property(property: &MqttProperty, dst: &mut BytesMut) -> (res: Result<()>)
    ensures
        match enc_property(property@) {
            Some(b) => res is Ok && bytes_mut_view(*final(dst)) == bytes_mut_view(*old(dst)) + b,
            None => res matches Err(Error::Encode(_)),
        },
{
    let ghost d0 = bytes_mut_view(*dst);
    proof {
        reveal(enc_property);
    }
    match property {
        MqttProperty::PayloadFormatIndicator(value) => {
            write_id_u8(0x01, *value, dst);
        },
        MqttProperty::MessageExpiryInterval(value) => {
            write_id_u32(0x02, *value, dst);
        },
        MqttProperty::ContentType(value) => {
            write_id_string(0x03, value.as_str(), dst)?;
        },
        MqttProperty::ResponseTopic(value) => {
            write_id_string(0x08, value.as_str(), dst)?;
        },
        MqttProperty::CorrelationData(value) => {
            write_id_binary(0x09, value, dst)?;
        },
        MqttProperty::SubscriptionIdentifier(value) => {
            write_id_varint(0x0b, *value, dst)?;
        },
        MqttProperty::SessionExpiryInterval(value) => {
            write_id_u32(0x11, *value, dst);
        },
        MqttProperty::AssignedClientIdentifier(value) => {
            write_id_string(0x12, value.as_str(), dst)?;
        },
        MqttProperty::ServerKeepAlive(value) => {
            write_id_u16(0x13, *value, dst);
        },
        MqttProperty::AuthenticationMethod(value) => {
            write_id_string(0x15, value.as_str(), dst)?;
        },
        MqttProperty::AuthenticationData(value) => {
            write_id_binary(0x16, value, dst)?;
        },
        MqttProperty::RequestProblemInformation(value) => {
            write_id_u8(0x17, *value, dst);
        },
        MqttProperty::WillDelayInterval(value) => {
            write_id_u32(0x18, *value, dst);
        },
        MqttProperty::RequestResponseInformation(value) => {
            write_id_u8(0x19, *value, dst);
        },
        MqttProperty::ResponseInformation(value) => {
            write_id_string(0x1a, value.as_str(), dst)?;
        },
        MqttProperty::ServerReference(value) => {
            write_id_string(0x1c, value.as_str(), dst)?;
        },
        MqttProperty::ReasonString(value) => {
            write_id_string(0x1f, value.as_str(), dst)?;
        },
        MqttProperty::ReceiveMaximum(value) => {
            write_id_u16(0x21, *value, dst);
        },
        MqttProperty::TopicAliasMaximum(value) => {
            write_id_u16(0x22, *value, dst);
        },
        MqttProperty::TopicAlias(value) => {
            write_id_u16(0x23, *value, dst);
        },
        MqttProperty::MaximumQoS(value) => {
            write_id_u8(0x24, *value, dst);
        },
        MqttProperty::RetainAvailable(value) => {
            write_id_u8(0x25, *value, dst);
        },
        MqttProperty::UserProperty(key, value) => {
            write_id_string(0x26, key.as_str(), dst)?;
            write_utf8_string(value.as_str(), dst)?;
        },
        MqttProperty::MaximumPacketSize(value) => {
            write_id_u32(0x27, *value, dst);
        },
        MqttProperty::WildcardSubscriptionAvailable(value) => {
            write_id_u8(0x28, *value, dst);
        },
        MqttProperty::SubscriptionIdentifierAvailable(value) => {
            write_id_u8(0x29, *value, dst);
        },
        MqttProperty::SharedSubscriptionAvailable(value) => {
            write_id_u8(0x2a, *value, dst);
        },
    }
    proof {
        assert(bytes_mut_view(*dst) =~= d0 + enc_property(property@)->0);
    }
    Ok(())
}

/// A failure part-way makes the whole list fail.
proof fn lemma_enc_property_list_none(ps: Seq<PropertyV>, i: int)
    requires
        0 <= i <= ps.len(),
        enc_property_list(ps.take(i)) is None,
    ensures
        enc_property_list(ps) is None,
    decreases ps.len() - i,
{
    if i < ps.len() {
        assert(ps.take(i + 1).drop_last() =~= ps.take(i));
        lemma_enc_property_list_none(ps, i + 1);
    } else {
        assert(ps.take(i) =~= ps);
    }
}

/// Writes a property block.
pub(crate) fn write_properties(properties: &[MqttProperty], dst: &mut BytesMut) -> (res: Result<()>)
    ensures
        match enc_properties(properties@.map_values(|p: MqttProperty| p@)) {
            Some(b) => res is Ok && bytes_mut_view(*final(dst)) == bytes_mut_view(*old(dst)) + b,
            None => res matches Err(Error::Encode(_)),
        },
{
    let ghost ps = properties@.map_values(|p: MqttProperty| p@);
    let mut buf = bytes_mut_new();
    let mut i: usize = 0;
    assert(ps.take(0) =~= Seq::<PropertyV>::empty());
    while i < properties.len()
        invariant
            0 <= i <= properties@.len(),
            ps == properties@.map_values(|p: MqttProperty| p@),
            enc_property_list(ps.take(i as int)) == Some(bytes_mut_view(buf)),
        decreases properties@.len() - i,
    {
        assert(ps.take(i + 1).drop_last() =~= ps.take(i as int));
        assert(ps.take(i + 1).last() == properties@[i as int]@);
        match encode_property(&properties[i], &mut buf) {
            Ok(()) => {},
            Err(err) => {
                proof {
                    lemma_enc_property_list_none(ps, i + 1);
                }
                return Err(err);
            },
        }
        i = i + 1;
    }
    assert(ps.take(i as int) =~= ps);
    let body = bytes_mut_as_slice(&buf);
    write_variable_integer(body.len() as u32, dst)?;
    bytes_mut_extend(dst, body);
    Ok(())
}

/// The list parse of `b` after `done` has been read.
pub open spec fn after(done: Seq<PropertyV>, rest: Option<Seq<PropertyV>>) -> Option<Seq<PropertyV>> {
    match rest {
        Some(ps) => Some(done + ps),
        None => None,
    }
}

impl<'src> Reader<'src> {
    /// Reads a property block.
    pub(crate) fn read_properties(&mut self) -> (res: Result<Vec<MqttProperty>>)
        requires
            old(self).wf(),
        ensures
            final(self).wf(),
            final(self).src == old(self).src,
            match sp_properties(old(self).rest()) {
                Some((v, k)) => (res matches Ok(ps) && properties_view(ps) == v)
                    && final(self).rest() == old(self).rest().skip(k),
                None => res matches Err(Error::Decode(_)),
            },
    {
        let ghost r0 = self.rest();
        let ghost pos0 = self.pos;
        let len = self.read_variable_integer()? as usize;
        let ghost k = r0.len() - self.rest().len();
        proof {
            lemma_sp_varint_len(r0);
            lemma_pow128_facts(4);
            let (v, kk) = sp_varint(r0)->0;
            assert(v < 268435456);
            assert(len == v);
            assert(kk == k);
            assert(self.pos == pos0 + k);
        }
        let n = self.src.len();
        let end = match self.pos.checked_add(len) {
            Some(end) => end,
            None => return Err(Error::Decode(owned("MQTT properties length overflow"))),
        };
        if end > n {
            let at = message_with_number("MQTT properties length exceeds packet: end=", end as u64);
            let total = message_with_number(", len=", n as u64);
            return Err(Error::Decode(message_with_text(at.as_str(), total.as_str())));
        }
        let block = slice_subrange(self.src, self.pos, end);
        assert(block@ =~= r0.subrange(k, k + len));
        let mut property_reader = Reader::new(block);
        let mut properties: Vec<MqttProperty> = Vec::new();
        while property_reader.remaining() > 0
            invariant
                self.wf(),
                self.src == old(self).src,
                r0 == old(self).rest(),
                self.rest() == r0.skip(k),
                end == self.pos + len,
                sp_varint(r0) == Some((len as nat, k)),
                k + len <= r0.len(),
                block@ == r0.subrange(k, k + len),
                property_reader.wf(),
                property_reader.src == block,
                sp_property_list(block@) == after(properties_view(properties), sp_property_list(property_reader.rest())),
            decreases property_reader.rest().len(),
        {
            let ghost rb = property_reader.rest();
            let ghost done = properties_view(properties);
            let property = decode_property(&mut property_reader)?;
            let ghost pv = property@;
            properties.push(property);
            proof {
                lemma_sp_property_len(rb);
                let (p, j) = sp_property(rb)->0;
                assert(pv == p);
                assert(property_reader.rest().len() < rb.len());
                assert(properties_view(properties) =~= done.push(p));
                assert(after(done, sp_property_list(rb)) =~= after(done.push(p), sp_property_list(rb.skip(j)))) by {
                    match sp_property_list(rb.skip(j)) {
                        Some(ps) => assert(done + (seq![p] + ps) =~= done.push(p) + ps),
                        None => {},
                    }
                }
            }
        }
        proof {
            assert(property_reader.rest() =~= Seq::<u8>::empty());
            assert(properties_view(properties) + Seq::<PropertyV>::empty() =~= properties_view(properties));
        }
        self.pos = end;
        proof {
            assert(self.rest() =~= r0.skip(k + len));
        }
        Ok(properties)
    }
}

/// Reading a property takes at least one byte.
proof fn lemma_sp_property_len(s: Seq<u8>)
    ensures
        sp_property(s) matches Some((p, k)) ==> 0 < k <= s.len(),
{
    lemma_sp_varint_len(s);
    if let Some((idv, k)) = sp_varint(s) {
        let r = s.skip(k);
        lemma_sp_value_len(((idv as u32) as u8), r);
    }
}

proof fn lemma_sp_value_len(id: u8, r: Seq<u8>)
    ensures
        sp_property_value(id, r) matches Some((p, j)) ==> 0 <= j <= r.len(),
{
    reveal(sp_property_value);
    lemma_sp_varint_len(r);
    if let Some((key, j1)) = sp_string(r) {
        assert(r.skip(j1).len() == r.len() - j1);
    }
}

} // verus!
