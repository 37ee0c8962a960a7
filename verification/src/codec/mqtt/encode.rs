//! Writing MQTT 5 packet bodies.
use bytes::{Bytes, BytesMut};
use vstd::prelude::*;

use crate::buf::{bytes_as_slice, bytes_mut_extend, bytes_mut_new, bytes_mut_view, bytes_view};
use crate::codec::mqtt::decode::mqtt_name;
use crate::codec::mqtt::property::{enc_properties, write_properties};
use crate::codec::mqtt::types::{
    properties_view, qos_bits, AckPacket, AckV, AuthPacket, CodesV, ConnAckPacket, ConnAckV, ConnectPacket,
    ConnectV, DisconnectPacket, MqttPacket, MqttProperty, PacketV, PropertyV, PublishPacket, PublishV, QoS,
    ReasonV, SubAckPacket, SubscriptionOptions,
    SubscribePacket, SubscribeV, Subscription, SubscriptionV, UnsubAckPacket, UnsubscribePacket,
    UnsubscribeV, Will, WillV,
};
use crate::codec::mqtt::wire::{
    cat, enc_binary, enc_string, enc_u16, write_binary_data, write_u16, write_u8, write_utf8_string,
};
use crate::text::owned;
use crate::{Error, Result};

verus! {

/// The byte of a flag: 1 when set.
pub open spec fn flag_bit(b: bool) -> u8 {
    if b {
        1
    } else {
        0
    }
}

/// The CONNECT flags byte: user name, password, will (with its QoS and
/// retain flag) and clean start.
pub open spec fn enc_connect_flags(p: ConnectV) -> u8 {
    ((flag_bit(p.username is Some) << 7) | (flag_bit(p.password is Some) << 6)) | (match p.will {
        Some(w) => (0x04u8 | (qos_bits(w.qos) << 3)) | (flag_bit(w.retain) << 5),
        None => 0u8,
    }) | (flag_bit(p.clean_start) << 1)
}

/// The will part of a CONNECT body.
pub open spec fn enc_will(w: Option<WillV>) -> Option<Seq<u8>> {
    match w {
        Some(w) => cat(enc_properties(w.properties), cat(enc_string(w.topic), enc_binary(w.payload))),
        None => Some(Seq::empty()),
    }
}

/// A string when present.
pub open spec fn enc_opt_string(s: Option<Seq<char>>) -> Option<Seq<u8>> {
    match s {
        Some(s) => enc_string(s),
        None => Some(Seq::empty()),
    }
}

/// Binary data when present.
pub open spec fn enc_opt_binary(b: Option<Seq<u8>>) -> Option<Seq<u8>> {
    match b {
        Some(b) => enc_binary(b),
        None => Some(Seq::empty()),
    }
}

/// What follows the CONNECT flags and keep-alive: properties, client
/// identifier, will, user name and password.
pub open spec fn enc_connect_payload(p: ConnectV) -> Option<Seq<u8>> {
    cat(
        enc_properties(p.properties),
        cat(enc_string(p.client_id), cat(enc_will(p.will), cat(enc_opt_string(p.username), enc_opt_binary(p.password)))),
    )
}

/// A CONNECT body; a password without a user name is refused.
pub open spec fn enc_connect(p: ConnectV) -> Option<Seq<u8>> {
    if p.password is Some && p.username is None {
        None
    } else {
        cat(
            enc_string(mqtt_name()),
            cat(Some(seq![5u8, enc_connect_flags(p)] + enc_u16(p.keep_alive)), enc_connect_payload(p)),
        )
    }
}

/// A CONNACK body.
pub open spec fn enc_connack(p: ConnAckV) -> Option<Seq<u8>> {
    cat(Some(seq![flag_bit(p.session_present), p.reason_code]), enc_properties(p.properties))
}

/// The fixed-header flags of a PUBLISH packet.
pub open spec fn enc_publish_flags(p: PublishV) -> u8 {
    ((qos_bits(p.qos) << 1) | (flag_bit(p.dup) << 3)) | flag_bit(p.retain)
}

/// A PUBLISH body with its fixed-header flags. A packet identifier must be
/// present exactly when the QoS is above 0, and must not be zero.
pub open spec fn enc_publish(p: PublishV) -> Option<(u8, Seq<u8>)> {
    if (p.qos == QoS::AtMostOnce) != (p.packet_id is None) {
        None
    } else if p.packet_id == Some(0u16) {
        None
    } else {
        let id = match p.packet_id {
            Some(id) => enc_u16(id),
            None => Seq::empty(),
        };
        match cat(enc_string(p.topic_name), cat(Some(id), cat(enc_properties(p.properties), Some(p.payload)))) {
            Some(b) => Some((enc_publish_flags(p), b)),
            None => None,
        }
    }
}

/// The reason code and properties that close an acknowledgement, a
/// DISCONNECT or an AUTH body: both left out when the code is 0 and there
/// are no properties, the properties alone left out when there are none.
pub open spec fn enc_reason_tail(reason_code: u8, properties: Seq<PropertyV>) -> Option<Seq<u8>> {
    if properties.len() != 0 {
        cat(Some(seq![reason_code]), enc_properties(properties))
    } else if reason_code != 0 {
        Some(seq![reason_code])
    } else {
        Some(Seq::empty())
    }
}

/// A PUBACK, PUBREC, PUBREL or PUBCOMP body; a zero identifier is refused.
pub open spec fn enc_ack(p: AckV) -> Option<Seq<u8>> {
    if p.packet_id == 0 {
        None
    } else {
        cat(Some(enc_u16(p.packet_id)), enc_reason_tail(p.reason_code, p.properties))
    }
}

/// The options byte of a subscription.
pub open spec fn enc_options_byte(o: SubscriptionOptions) -> u8 {
    ((qos_bits(o.maximum_qos) | (flag_bit(o.no_local) << 2)) | (flag_bit(o.retain_as_published) << 3))
        | (o.retain_handling << 4)
}

/// One subscription; a retain handling above 2 is refused.
pub open spec fn enc_subscription(s: SubscriptionV) -> Option<Seq<u8>> {
    if s.options.retain_handling > 2 {
        None
    } else {
        cat(enc_string(s.topic_filter), Some(seq![enc_options_byte(s.options)]))
    }
}

/// Subscriptions one after another.
pub open spec fn enc_subscription_list(ss: Seq<SubscriptionV>) -> Option<Seq<u8>>
    decreases ss.len(),
{
    if ss.len() == 0 {
        Some(Seq::empty())
    } else {
        cat(enc_subscription_list(ss.drop_last()), enc_subscription(ss.last()))
    }
}

/// A SUBSCRIBE body: at least one subscription and a non-zero identifier.
pub open spec fn enc_subscribe(p: SubscribeV) -> Option<Seq<u8>> {
    if p.subscriptions.len() == 0 || p.packet_id == 0 {
        None
    } else {
        cat(Some(enc_u16(p.packet_id)), cat(enc_properties(p.properties), enc_subscription_list(p.subscriptions)))
    }
}

/// A SUBACK or UNSUBACK body: a non-zero identifier and at least one reason code.
pub open spec fn enc_codes(p: CodesV) -> Option<Seq<u8>> {
    if p.packet_id == 0 || p.reason_codes.len() == 0 {
        None
    } else {
        cat(Some(enc_u16(p.packet_id)), cat(enc_properties(p.properties), Some(p.reason_codes)))
    }
}

/// Strings one after another.
pub open spec fn enc_string_list(ss: Seq<Seq<char>>) -> Option<Seq<u8>>
    decreases ss.len(),
{
    if ss.len() == 0 {
        Some(Seq::empty())
    } else {
        cat(enc_string_list(ss.drop_last()), enc_string(ss.last()))
    }
}

/// An UNSUBSCRIBE body: at least one topic filter and a non-zero identifier.
pub open spec fn enc_unsubscribe(p: UnsubscribeV) -> Option<Seq<u8>> {
    if p.topic_filters.len() == 0 || p.packet_id == 0 {
        None
    } else {
        cat(Some(enc_u16(p.packet_id)), cat(enc_properties(p.properties), enc_string_list(p.topic_filters)))
    }
}

/// A DISCONNECT or AUTH body.
pub open spec fn enc_reason(p: ReasonV) -> Option<Seq<u8>> {
    enc_reason_tail(p.reason_code, p.properties)
}

/// Packet type, fixed-header flags and body of a packet.
#[verifier::opaque]
pub open spec fn enc_packet(p: PacketV) -> Option<(u8, u8, Seq<u8>)> {
    match p {
        PacketV::Connect(v) => match enc_connect(v) { Some(b) => Some((1u8, 0u8, b)), None => None },
        PacketV::ConnAck(v) => match enc_connack(v) { Some(b) => Some((2u8, 0u8, b)), None => None },
        PacketV::Publish(v) => match enc_publish(v) { Some((f, b)) => Some((3u8, f, b)), None => None },
        PacketV::PubAck(v) => match enc_ack(v) { Some(b) => Some((4u8, 0u8, b)), None => None },
        PacketV::PubRec(v) => match enc_ack(v) { Some(b) => Some((5u8, 0u8, b)), None => None },
        PacketV::PubRel(v) => match enc_ack(v) { Some(b) => Some((6u8, 2u8, b)), None => None },
        PacketV::PubComp(v) => match enc_ack(v) { Some(b) => Some((7u8, 0u8, b)), None => None },
        PacketV::Subscribe(v) => match enc_subscribe(v) { Some(b) => Some((8u8, 2u8, b)), None => None },
        PacketV::SubAck(v) => match enc_codes(v) { Some(b) => Some((9u8, 0u8, b)), None => None },
        PacketV::Unsubscribe(v) => match enc_unsubscribe(v) { Some(b) => Some((10u8, 2u8, b)), None => None },
        PacketV::UnsubAck(v) => match enc_codes(v) { Some(b) => Some((11u8, 0u8, b)), None => None },
        PacketV::PingReq => Some((12u8, 0u8, Seq::empty())),
        PacketV::PingResp => Some((13u8, 0u8, Seq::empty())),
        PacketV::Disconnect(v) => match enc_reason(v) { Some(b) => Some((14u8, 0u8, b)), None => None },
        PacketV::Auth(v) => match enc_reason(v) { Some(b) => Some((15u8, 0u8, b)), None => None },
    }
}

proof fn lemma_enc_subscription_list_none(ss: Seq<SubscriptionV>, i: int)
    requires
        0 <= i <= ss.len(),
        enc_subscription_list(ss.take(i)) is None,
    ensures
        enc_subscription_list(ss) is None,
    decreases ss.len() - i,
{
    if i < ss.len() {
        assert(ss.take(i + 1).drop_last() =~= ss.take(i));
        lemma_enc_subscription_list_none(ss, i + 1);
    } else {
        assert(ss.take(i) =~= ss);
    }
}

proof fn lemma_enc_string_list_none(ss: Seq<Seq<char>>, i: int)
    requires
        0 <= i <= ss.len(),
        enc_string_list(ss.take(i)) is None,
    ensures
        enc_string_list(ss) is None,
    decreases ss.len() - i,
{
    if i < ss.len() {
        assert(ss.take(i + 1).drop_last() =~= ss.take(i));
        lemma_enc_string_list_none(ss, i + 1);
    } else {
        assert(ss.take(i) =~= ss);
    }
}

/// 1 for a set flag, 0 otherwise.
fn flag_byte(b: bool) -> (r: u8)
    ensures
        r == flag_bit(b),
{
    if b {
        1
    } else {
        0
    }
}

/// A packet identifier of zero is refused.
fn ensure_nonzero_packet_id_encode(packet_id: u16) -> (res: Result<()>)
    ensures
        res is Ok <==> packet_id != 0,
        res is Err ==> res matches Err(Error::Encode(_)),
{
    if packet_id == 0 {
        return Err(Error::Encode(owned("MQTT packet identifier must be non-zero")));
    }
    Ok(())
}

/// Writes the will part of a CONNECT body.
fn encode_will(will: Option<Will>, dst: &mut BytesMut) -> (res: Result<()>)
    ensures
        match enc_will(match will {
            Some(w) => Some(w@),
            None => None::<WillV>,
        }) {
            Some(b) => res is Ok && bytes_mut_view(*final(dst)) == bytes_mut_view(*old(dst)) + b,
            None => res matches Err(Error::Encode(_)),
        },
{
    match will {
        Some(will) => {
            write_properties(will.properties.as_slice(), dst)?;
            write_utf8_string(will.topic.as_str(), dst)?;
            write_binary_data(&will.payload, dst)?;
            Ok(())
        },
        None => {
            assert(bytes_mut_view(*dst) + Seq::<u8>::empty() =~= bytes_mut_view(*dst));
            Ok(())
        },
    }
}

/// The CONNECT flags byte of a packet.
fn connect_flags(packet: &ConnectPacket) -> (r: u8)
    ensures
        r == enc_connect_flags(packet@),
{
    let will_bits: u8 = match &packet.will {
        Some(will) => (0x04u8 | (will.qos.as_u8() << 3)) | (flag_byte(will.retain) << 5),
        None => 0,
    };
    ((flag_byte(packet.username.is_some()) << 7) | (flag_byte(packet.password.is_some()) << 6))
        | will_bits | (flag_byte(packet.clean_start) << 1)
}

/// Writes a string when present.
fn encode_opt_string(value: Option<String>, dst: &mut BytesMut) -> (res: Result<()>)
    ensures
        match enc_opt_string(match value {
            Some(s) => Some(s@),
            None => None::<Seq<char>>,
        }) {
            Some(b) => res is Ok && bytes_mut_view(*final(dst)) == bytes_mut_view(*old(dst)) + b,
            None => res matches Err(Error::Encode(_)),
        },
{
    match value {
        Some(s) => write_utf8_string(s.as_str(), dst),
        None => {
            assert(bytes_mut_view(*dst) + Seq::<u8>::empty() =~= bytes_mut_view(*dst));
            Ok(())
        },
    }
}

/// Writes binary data when present.
fn encode_opt_binary(value: Option<Bytes>, dst: &mut BytesMut) -> (res: Result<()>)
    ensures
        match enc_opt_binary(match value {
            Some(b) => Some(bytes_view(b)),
            None => None::<Seq<u8>>,
        }) {
            Some(b) => res is Ok && bytes_mut_view(*final(dst)) == bytes_mut_view(*old(dst)) + b,
            None => res matches Err(Error::Encode(_)),
        },
{
    match value {
        Some(b) => write_binary_data(&b, dst),
        None => {
            assert(bytes_mut_view(*dst) + Seq::<u8>::empty() =~= bytes_mut_view(*dst));
            Ok(())
        },
    }
}

/// Writes what follows the CONNECT flags and keep-alive.
#[verifier::rlimit(30)]
fn encode_connect_payload(packet: ConnectPacket, dst: &mut BytesMut) -> (res: Result<()>)
    ensures
        match enc_connect_payload(packet@) {
            Some(b) => res is Ok && bytes_mut_view(*final(dst)) == bytes_mut_view(*old(dst)) + b,
            None => res matches Err(Error::Encode(_)),
        },
{
    let ghost v = packet@;
    let ghost d0 = bytes_mut_view(*dst);
    write_properties(packet.properties.as_slice(), dst)?;
    write_utf8_string(packet.client_id.as_str(), dst)?;
    encode_will(packet.will, dst)?;
    encode_opt_string(packet.username, dst)?;
    encode_opt_binary(packet.password, dst)?;
    proof {
        let b3 = enc_properties(v.properties)->0;
        let b4 = enc_string(v.client_id)->0;
        let b5 = enc_will(v.will)->0;
        let b6 = enc_opt_string(v.username)->0;
        let b7 = enc_opt_binary(v.password)->0;
        assert(bytes_mut_view(*dst) =~= d0 + (b3 + (b4 + (b5 + (b6 + b7)))));
    }
    Ok(())
}

/// Writes a CONNECT body.
pub(crate) fn encode_connect(packet: ConnectPacket, dst: &mut BytesMut) -> (res: Result<()>)
    ensures
        match enc_connect(packet@) {
            Some(b) => res is Ok && bytes_mut_view(*final(dst)) == bytes_mut_view(*old(dst)) + b,
            None => res matches Err(Error::Encode(_)),
        },
{
    let ghost v = packet@;
    if packet.password.is_some() && packet.username.is_none() {
        return Err(Error::Encode(owned("MQTT CONNECT password requires username")));
    }
    let flags = connect_flags(&packet);
    let ghost d0 = bytes_mut_view(*dst);
    write_utf8_string("MQTT", dst)?;
    let ghost d1 = bytes_mut_view(*dst);
    write_u8(5, dst);
    write_u8(flags, dst);
    write_u16(packet.keep_alive, dst);
    let ghost b2 = seq![5u8, enc_connect_flags(v)] + enc_u16(v.keep_alive);
    assert(bytes_mut_view(*dst) =~= d1 + b2);
    encode_connect_payload(packet, dst)?;
    proof {
        let b1 = enc_string(mqtt_name())->0;
        let b3 = enc_connect_payload(v)->0;
        assert(bytes_mut_view(*dst) =~= d0 + (b1 + (b2 + b3)));
    }
    Ok(())
}

/// Writes a CONNACK body.
pub(crate) fn encode_connack(packet: ConnAckPacket, dst: &mut BytesMut) -> (res: Result<()>)
    ensures
        match enc_connack(packet@) {
            Some(b) => res is Ok && bytes_mut_view(*final(dst)) == bytes_mut_view(*old(dst)) + b,
            None => res matches Err(Error::Encode(_)),
        },
{
    let ghost d0 = bytes_mut_view(*dst);
    write_u8(flag_byte(packet.session_present), dst);
    write_u8(packet.reason_code, dst);
    let ghost d1 = bytes_mut_view(*dst);
    assert(d1 =~= d0 + seq![flag_bit(packet.session_present), packet.reason_code]);
    write_properties(packet.properties.as_slice(), dst)?;
    assert(bytes_mut_view(*dst) =~= d0 + (seq![flag_bit(packet.session_present), packet.reason_code]
        + enc_properties(packet@.properties)->0));
    Ok(())
}

/// Writes a PUBLISH body and gives back its fixed-header flags.
#[verifier::rlimit(30)]
pub(crate) fn encode_publish(packet: PublishPacket, dst: &mut BytesMut) -> (res: Result<u8>)
    ensures
        match enc_publish(packet@) {
            Some((f, b)) => res == Ok::<u8, Error>(f) && bytes_mut_view(*final(dst)) == bytes_mut_view(*old(dst)) + b,
            None => res matches Err(Error::Encode(_)),
        },
{
    let ghost v = packet@;
    if packet.qos == QoS::AtMostOnce && packet.packet_id.is_some() {
        return Err(Error::Encode(owned("QoS 0 MQTT PUBLISH must not include packet_id")));
    }
    if packet.qos != QoS::AtMostOnce && packet.packet_id.is_none() {
        return Err(Error::Encode(owned("QoS 1/2 MQTT PUBLISH must include packet_id")));
    }
    if let Some(packet_id) = packet.packet_id {
        ensure_nonzero_packet_id_encode(packet_id)?;
    }
    let flags: u8 = ((packet.qos.as_u8() << 1) | (flag_byte(packet.dup) << 3)) | flag_byte(packet.retain);
    let ghost d0 = bytes_mut_view(*dst);
    write_utf8_string(packet.topic_name.as_str(), dst)?;
    let ghost d1 = bytes_mut_view(*dst);
    if let Some(packet_id) = packet.packet_id {
        write_u16(packet_id, dst);
    }
    let ghost id = match v.packet_id {
        Some(id) => enc_u16(id),
        None => Seq::<u8>::empty(),
    };
    assert(bytes_mut_view(*dst) =~= d1 + id);
    let ghost d2 = bytes_mut_view(*dst);
    write_properties(packet.properties.as_slice(), dst)?;
    bytes_mut_extend(dst, bytes_as_slice(&packet.payload));
    proof {
        let b1 = enc_string(v.topic_name)->0;
        let b3 = enc_properties(v.properties)->0;
        assert(bytes_mut_view(*dst) =~= d0 + (b1 + (id + (b3 + v.payload))));
    }
    Ok(flags)
}

/// Writes the reason code and properties that close an acknowledgement,
/// a DISCONNECT or an AUTH body.
fn encode_reason_tail(reason_code: u8, properties: &Vec<MqttProperty>, dst: &mut BytesMut) -> (res: Result<()>)
    ensures
        match enc_reason_tail(reason_code, properties_view(*properties)) {
            Some(b) => res is Ok && bytes_mut_view(*final(dst)) == bytes_mut_view(*old(dst)) + b,
            None => res matches Err(Error::Encode(_)),
        },
{
    let ghost d0 = bytes_mut_view(*dst);
    if reason_code != 0 || properties.len() != 0 {
        write_u8(reason_code, dst);
    }
    if properties.len() != 0 {
        let ghost d1 = bytes_mut_view(*dst);
        write_properties(properties.as_slice(), dst)?;
        assert(bytes_mut_view(*dst) =~= d0 + (seq![reason_code] + enc_properties(properties_view(*properties))->0));
    } else {
        assert(bytes_mut_view(*dst) =~= d0 + enc_reason_tail(reason_code, properties_view(*properties))->0);
    }
    Ok(())
}

/// Writes a PUBACK, PUBREC, PUBREL or PUBCOMP body.
pub(crate) fn encode_ack(packet: AckPacket, dst: &mut BytesMut) -> (res: Result<()>)
    ensures
        match enc_ack(packet@) {
            Some(b) => res is Ok && bytes_mut_view(*final(dst)) == bytes_mut_view(*old(dst)) + b,
            None => res matches Err(Error::Encode(_)),
        },
{
    ensure_nonzero_packet_id_encode(packet.packet_id)?;
    let ghost d0 = bytes_mut_view(*dst);
    write_u16(packet.packet_id, dst);
    encode_reason_tail(packet.reason_code, &packet.properties, dst)?;
    assert(bytes_mut_view(*dst) =~= d0 + (enc_u16(packet.packet_id)
        + enc_reason_tail(packet.reason_code, properties_view(packet.properties))->0));
    Ok(())
}

/// Writes one subscription.
fn encode_subscription(subscription: &Subscription, dst: &mut BytesMut) -> (res: Result<()>)
    ensures
        match enc_subscription(subscription@) {
            Some(b) => res is Ok && bytes_mut_view(*final(dst)) == bytes_mut_view(*old(dst)) + b,
            None => res matches Err(Error::Encode(_)),
        },
{
    let o = subscription.options;
    if o.retain_handling > 2 {
        return Err(Error::Encode(owned("invalid MQTT SUBSCRIBE retain handling option")));
    }
    let ghost d0 = bytes_mut_view(*dst);
    write_utf8_string(subscription.topic_filter.as_str(), dst)?;
    let options: u8 = ((o.maximum_qos.as_u8() | (flag_byte(o.no_local) << 2)) | (flag_byte(o.retain_as_published) << 3))
        | (o.retain_handling << 4);
    write_u8(options, dst);
    assert(bytes_mut_view(*dst) =~= d0 + (enc_string(subscription@.topic_filter)->0 + seq![options]));
    Ok(())
}

/// Writes a SUBSCRIBE body.
pub(crate) fn encode_subscribe(packet: SubscribePacket, dst: &mut BytesMut) -> (res: Result<()>)
    ensures
        match enc_subscribe(packet@) {
            Some(b) => res is Ok && bytes_mut_view(*final(dst)) == bytes_mut_view(*old(dst)) + b,
            None => res matches Err(Error::Encode(_)),
        },
{
    let ghost v = packet@;
    if packet.subscriptions.len() == 0 {
        return Err(Error::Encode(owned("MQTT SUBSCRIBE must include at least one subscription")));
    }
    ensure_nonzero_packet_id_encode(packet.packet_id)?;
    let ghost d0 = bytes_mut_view(*dst);
    write_u16(packet.packet_id, dst);
    write_properties(packet.properties.as_slice(), dst)?;
    let ghost mark = bytes_mut_view(*dst);
    let ghost ss = v.subscriptions;
    let mut i: usize = 0;
    assert(ss.take(0) =~= Seq::<SubscriptionV>::empty());
    assert(mark + Seq::<u8>::empty() =~= mark);
    while i < packet.subscriptions.len()
        invariant
            0 <= i <= packet.subscriptions@.len(),
            ss == packet.subscriptions@.map_values(|x: Subscription| x@),
            enc_subscription_list(ss.take(i as int)) matches Some(b) && bytes_mut_view(*dst) == mark + b,
        decreases packet.subscriptions@.len() - i,
    {
        assert(ss.take(i + 1).drop_last() =~= ss.take(i as int));
        let ghost before = bytes_mut_view(*dst);
        match encode_subscription(&packet.subscriptions[i], dst) {
            Ok(()) => {},
            Err(err) => {
                proof {
                    lemma_enc_subscription_list_none(ss, i + 1);
                }
                return Err(err);
            },
        }
        proof {
            let b = enc_subscription_list(ss.take(i as int))->0;
            let c = enc_subscription(ss[i as int])->0;
            assert(bytes_mut_view(*dst) =~= mark + (b + c));
        }
        i = i + 1;
    }
    proof {
        assert(ss.take(i as int) =~= ss);
        let b3 = enc_properties(v.properties)->0;
        let b4 = enc_subscription_list(ss)->0;
        assert(mark =~= d0 + (enc_u16(v.packet_id) + b3));
        assert(bytes_mut_view(*dst) =~= d0 + (enc_u16(v.packet_id) + (b3 + b4)));
    }
    Ok(())
}

/// Writes the body shared by SUBACK and UNSUBACK; an empty list is refused
/// with `empty_message`.
fn encode_codes(
    packet_id: u16,
    properties: &Vec<MqttProperty>,
    reason_codes: &Vec<u8>,
    empty_message: &str,
    dst: &mut BytesMut,
) -> (res: Result<()>)
    ensures
        match enc_codes(CodesV { packet_id, properties: properties_view(*properties), reason_codes: reason_codes@ }) {
            Some(b) => res is Ok && bytes_mut_view(*final(dst)) == bytes_mut_view(*old(dst)) + b,
            None => res matches Err(Error::Encode(_)),
        },
{
    ensure_nonzero_packet_id_encode(packet_id)?;
    if reason_codes.len() == 0 {
        return Err(Error::Encode(owned(empty_message)));
    }
    let ghost d0 = bytes_mut_view(*dst);
    write_u16(packet_id, dst);
    write_properties(properties.as_slice(), dst)?;
    bytes_mut_extend(dst, reason_codes.as_slice());
    assert(bytes_mut_view(*dst) =~= d0 + (enc_u16(packet_id)
        + (enc_properties(properties_view(*properties))->0 + reason_codes@)));
    Ok(())
}

/// Writes an UNSUBSCRIBE body.
pub(crate) fn encode_unsubscribe(packet: UnsubscribePacket, dst: &mut BytesMut) -> (res: Result<()>)
    ensures
        match enc_unsubscribe(packet@) {
            Some(b) => res is Ok && bytes_mut_view(*final(dst)) == bytes_mut_view(*old(dst)) + b,
            None => res matches Err(Error::Encode(_)),
        },
{
    let ghost v = packet@;
    if packet.topic_filters.len() == 0 {
        return Err(Error::Encode(owned("MQTT UNSUBSCRIBE must include at least one topic filter")));
    }
    ensure_nonzero_packet_id_encode(packet.packet_id)?;
    let ghost d0 = bytes_mut_view(*dst);
    write_u16(packet.packet_id, dst);
    write_properties(packet.properties.as_slice(), dst)?;
    let ghost mark = bytes_mut_view(*dst);
    let ghost ss = v.topic_filters;
    let mut i: usize = 0;
    assert(ss.take(0) =~= Seq::<Seq<char>>::empty());
    assert(mark + Seq::<u8>::empty() =~= mark);
    while i < packet.topic_filters.len()
        invariant
            0 <= i <= packet.topic_filters@.len(),
            ss == packet.topic_filters@.map_values(|x: String| x@),
            enc_string_list(ss.take(i as int)) matches Some(b) && bytes_mut_view(*dst) == mark + b,
        decreases packet.topic_filters@.len() - i,
    {
        assert(ss.take(i + 1).drop_last() =~= ss.take(i as int));
        match write_utf8_string(packet.topic_filters[i].as_str(), dst) {
            Ok(()) => {},
            Err(err) => {
                proof {
                    lemma_enc_string_list_none(ss, i + 1);
                }
                return Err(err);
            },
        }
        proof {
            let b = enc_string_list(ss.take(i as int))->0;
            let c = enc_string(ss[i as int])->0;
            assert(bytes_mut_view(*dst) =~= mark + (b + c));
        }
        i = i + 1;
    }
    proof {
        assert(ss.take(i as int) =~= ss);
        let b3 = enc_properties(v.properties)->0;
        let b4 = enc_string_list(ss)->0;
        assert(mark =~= d0 + (enc_u16(v.packet_id) + b3));
        assert(bytes_mut_view(*dst) =~= d0 + (enc_u16(v.packet_id) + (b3 + b4)));
    }
    Ok(())
}

/// Packet type, fixed-header flags and body of a packet.
#[verifier::rlimit(40)]
pub(crate) fn encode_packet(packet: MqttPacket) -> (res: Result<(u8, u8, BytesMut)>)
    ensures
        match enc_packet(packet@) {
            Some((t, f, b)) => res matches Ok((t2, f2, body)) && t2 == t && f2 == f && bytes_mut_view(body) == b,
            None => res matches Err(Error::Encode(_)),
        },
{
    reveal(enc_packet);
    let mut body = bytes_mut_new();
    assert(Seq::<u8>::empty() + Seq::<u8>::empty() =~= Seq::<u8>::empty());
    let (packet_type, flags): (u8, u8) = match packet {
        MqttPacket::Connect(p) => {
            encode_connect(p, &mut body)?;
            (1, 0)
        },
        MqttPacket::ConnAck(p) => {
            encode_connack(p, &mut body)?;
            (2, 0)
        },
        MqttPacket::Publish(p) => {
            let flags = encode_publish(p, &mut body)?;
            (3, flags)
        },
        MqttPacket::PubAck(p) => {
            encode_ack(p, &mut body)?;
            (4, 0)
        },
        MqttPacket::PubRec(p) => {
            encode_ack(p, &mut body)?;
            (5, 0)
        },
        MqttPacket::PubRel(p) => {
            encode_ack(p, &mut body)?;
            (6, 2)
        },
        MqttPacket::PubComp(p) => {
            encode_ack(p, &mut body)?;
            (7, 0)
        },
        MqttPacket::Subscribe(p) => {
            encode_subscribe(p, &mut body)?;
            (8, 2)
        },
        MqttPacket::SubAck(p) => {
            encode_codes(
                p.packet_id,
                &p.properties,
                &p.reason_codes,
                "MQTT SUBACK must include at least one reason code",
                &mut body,
            )?;
            (9, 0)
        },
        MqttPacket::Unsubscribe(p) => {
            encode_unsubscribe(p, &mut body)?;
            (10, 2)
        },
        MqttPacket::UnsubAck(p) => {
            encode_codes(
                p.packet_id,
                &p.properties,
                &p.reason_codes,
                "MQTT UNSUBACK must include at least one reason code",
                &mut body,
            )?;
            (11, 0)
        },
        MqttPacket::PingReq => (12, 0),
        MqttPacket::PingResp => (13, 0),
        MqttPacket::Disconnect(p) => {
            encode_reason_tail(p.reason_code, &p.properties, &mut body)?;
            (14, 0)
        },
        MqttPacket::Auth(p) => {
            encode_reason_tail(p.reason_code, &p.properties, &mut body)?;
            (15, 0)
        },
    };
    Ok((packet_type, flags, body))
}

} // verus!
