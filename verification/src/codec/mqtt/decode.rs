//! Reading MQTT 5 packet bodies.
use vstd::prelude::*;
use vstd::slice::slice_to_vec;

use crate::buf::{bytes_as_slice, bytes_view};
use crate::codec::mqtt::property::{sp_properties, sp_property_list};
use crate::codec::mqtt::types::{
    properties_view, qos_of, AckPacket, MqttProperty, AckV, AuthPacket, CodesV, ConnAckPacket, ConnAckV, ConnectPacket,
    ConnectV, DisconnectPacket, MqttPacket, PacketV, PropertyV, PublishPacket, PublishV, QoS, ReasonV,
    SubAckPacket, SubscribePacket, SubscribeV, Subscription, SubscriptionOptions, SubscriptionV,
    UnsubAckPacket, UnsubscribePacket, UnsubscribeV, Will, WillV,
};
use crate::codec::mqtt::wire::{lemma_skip_skip, lemma_sp_varint_len, sp_binary, sp_string, sp_u16, sp_u8, Reader};
use crate::text::{message_with_hex, message_with_number, message_with_text, owned};
use crate::{Error, Result};

verus! {

broadcast use lemma_skip_skip;

/// The protocol name a CONNECT packet must carry.
pub open spec fn mqtt_name() -> Seq<char> {
    "MQTT"@
}

/// Reading a CONNECT body.
pub open spec fn sp_connect(s: Seq<u8>) -> Option<(ConnectV, int)> {
    match sp_string(s) {
        Some((name, k1)) => if name != mqtt_name() {
            None
        } else {
            match sp_u8(s.skip(k1)) {
                Some((level, k2)) => if level != 5 {
                    None
                } else {
                    match sp_u8(s.skip(k1 + k2)) {
                        Some((flags, k3)) => match sp_connect_flags(flags) {
                            Some(_) => match sp_connect_payload(flags, s.skip(k1 + k2 + k3)) {
                                Some((v, k4)) => Some((v, k1 + k2 + k3 + k4)),
                                None => None,
                            },
                            None => None,
                        },
                        None => None,
                    }
                },
                None => None,
            }
        },
        None => None,
    }
}

/// The CONNECT flags are consistent: the reserved bit is clear, the will
/// QoS is valid, will fields are only set with the will flag, and a
/// password comes with a user name.
pub open spec fn sp_connect_flags(flags: u8) -> Option<QoS> {
    if flags & 0x01 != 0 {
        None
    } else {
        match qos_of((flags >> 3) & 0x03) {
            Some(will_qos) => {
                let username_flag = flags & 0x80 != 0;
                let password_flag = flags & 0x40 != 0;
                let will_retain = flags & 0x20 != 0;
                let will_flag = flags & 0x04 != 0;
                if !will_flag && (will_retain || will_qos != QoS::AtMostOnce) {
                    None
                } else if password_flag && !username_flag {
                    None
                } else {
                    Some(will_qos)
                }
            },
            None => None,
        }
    }
}

/// Reading the rest of a CONNECT body once the flags are known.
#[verifier::opaque]
pub open spec fn sp_connect_payload(flags: u8, s: Seq<u8>) -> Option<(ConnectV, int)> {
    match (sp_u16(s), qos_of((flags >> 3) & 0x03)) {
        (Some((keep_alive, k1)), Some(will_qos)) => match sp_properties(s.skip(k1)) {
            Some((properties, k2)) => match sp_string(s.skip(k1 + k2)) {
                Some((client_id, k3)) => {
                    let o3 = k1 + k2 + k3;
                    match sp_will(flags, will_qos, s.skip(o3)) {
                        Some((will, k4)) => match sp_opt_string(flags & 0x80 != 0, s.skip(o3 + k4)) {
                            Some((username, k5)) => match sp_opt_binary(flags & 0x40 != 0, s.skip(o3 + k4 + k5)) {
                                Some((password, k6)) => Some((
                                    ConnectV {
                                        clean_start: flags & 0x02 != 0,
                                        keep_alive,
                                        properties,
                                        client_id,
                                        will,
                                        username,
                                        password,
                                    },
                                    o3 + k4 + k5 + k6,
                                )),
                                None => None,
                            },
                            None => None,
                        },
                        None => None,
                    }
                },
                None => None,
            },
            None => None,
        },
        _ => None,
    }
}

/// Reading the will of a CONNECT body, when the will flag is set.
pub open spec fn sp_will(flags: u8, qos: QoS, s: Seq<u8>) -> Option<(Option<WillV>, int)> {
    if flags & 0x04 != 0 {
        match sp_properties(s) {
            Some((properties, k1)) => match sp_string(s.skip(k1)) {
                Some((topic, k2)) => match sp_binary(s.skip(k1 + k2)) {
                    Some((payload, k3)) => Some((
                        Some(WillV { qos, retain: flags & 0x20 != 0, properties, topic, payload }),
                        k1 + k2 + k3,
                    )),
                    None => None,
                },
                None => None,
            },
            None => None,
        }
    } else {
        Some((None, 0))
    }
}

/// Reading a string when `present`.
pub open spec fn sp_opt_string(present: bool, s: Seq<u8>) -> Option<(Option<Seq<char>>, int)> {
    if present {
        match sp_string(s) {
            Some((v, k)) => Some((Some(v), k)),
            None => None,
        }
    } else {
        Some((None, 0))
    }
}

/// Reading binary data when `present`.
pub open spec fn sp_opt_binary(present: bool, s: Seq<u8>) -> Option<(Option<Seq<u8>>, int)> {
    if present {
        match sp_binary(s) {
            Some((v, k)) => Some((Some(v), k)),
            None => None,
        }
    } else {
        Some((None, 0))
    }
}

/// Reading a non-zero packet identifier.
pub open spec fn sp_packet_id(s: Seq<u8>) -> Option<(u16, int)> {
    match sp_u16(s) {
        Some((id, k)) => if id == 0 {
            None
        } else {
            Some((id, k))
        },
        None => None,
    }
}

/// Reading properties when bytes remain, else none.
pub open spec fn sp_opt_properties(s: Seq<u8>) -> Option<(Seq<PropertyV>, int)> {
    if s.len() == 0 {
        Some((Seq::empty(), 0))
    } else {
        sp_properties(s)
    }
}

/// Reading a CONNACK body.
pub open spec fn sp_connack(s: Seq<u8>) -> Option<(ConnAckV, int)> {
    match sp_u8(s) {
        Some((flags, k1)) => if flags & !0x01u8 != 0 {
            None
        } else {
            match sp_u8(s.skip(k1)) {
                Some((reason_code, k2)) => match sp_properties(s.skip(k1 + k2)) {
                    Some((properties, k3)) => Some((
                        ConnAckV { session_present: flags & 0x01 != 0, reason_code, properties },
                        k1 + k2 + k3,
                    )),
                    None => None,
                },
                None => None,
            }
        },
        None => None,
    }
}

/// Reading a PUBLISH body with the fixed header's `flags`; the payload is
/// whatever follows the properties.
pub open spec fn sp_publish(flags: u8, s: Seq<u8>) -> Option<(PublishV, int)> {
    match qos_of((flags >> 1) & 0x03) {
        Some(qos) => match sp_string(s) {
            Some((topic_name, k1)) => {
                let id = if qos == QoS::AtMostOnce {
                    Some((None, 0int))
                } else {
                    match sp_packet_id(s.skip(k1)) {
                        Some((id, k)) => Some((Some(id), k)),
                        None => None,
                    }
                };
                match id {
                    Some((packet_id, k2)) => match sp_properties(s.skip(k1 + k2)) {
                        Some((properties, k3)) => Some((
                            PublishV {
                                dup: flags & 0x08 != 0,
                                qos,
                                retain: flags & 0x01 != 0,
                                topic_name,
                                packet_id,
                                properties,
                                payload: s.skip(k1 + k2 + k3),
                            },
                            s.len() as int,
                        )),
                        None => None,
                    },
                    None => None,
                }
            },
            None => None,
        },
        None => None,
    }
}

/// Reading a PUBACK, PUBREC, PUBREL or PUBCOMP body: the reason code and
/// properties may be left out.
pub open spec fn sp_ack(s: Seq<u8>) -> Option<(AckV, int)> {
    match sp_packet_id(s) {
        Some((packet_id, k1)) => if s.len() == k1 {
            Some((AckV { packet_id, reason_code: 0, properties: Seq::empty() }, k1))
        } else {
            match sp_u8(s.skip(k1)) {
                Some((reason_code, k2)) => match sp_opt_properties(s.skip(k1 + k2)) {
                    Some((properties, k3)) => Some((AckV { packet_id, reason_code, properties }, k1 + k2 + k3)),
                    None => None,
                },
                None => None,
            }
        },
        None => None,
    }
}

/// Reading one subscription: a topic filter and an options byte whose
/// reserved bits are clear and whose retain handling is not 3.
pub open spec fn sp_subscription(s: Seq<u8>) -> Option<(SubscriptionV, int)> {
    match sp_string(s) {
        Some((topic_filter, k1)) => match sp_u8(s.skip(k1)) {
            Some((options, k2)) => {
                let retain_handling = (options >> 4) & 0x03;
                if options & 0xc0 != 0 || retain_handling == 3 {
                    None
                } else {
                    match qos_of(options & 0x03) {
                        Some(maximum_qos) => Some((
                            SubscriptionV {
                                topic_filter,
                                options: SubscriptionOptions {
                                    maximum_qos,
                                    no_local: options & 0x04 != 0,
                                    retain_as_published: options & 0x08 != 0,
                                    retain_handling,
                                },
                            },
                            k1 + k2,
                        )),
                        None => None,
                    }
                }
            },
            None => None,
        },
        None => None,
    }
}

/// Reading subscriptions until `s` is used up.
pub open spec fn sp_subscription_list(s: Seq<u8>) -> Option<Seq<SubscriptionV>>
    decreases s.len(),
{
    if s.len() == 0 {
        Some(Seq::empty())
    } else {
        match sp_subscription(s) {
            Some((v, k)) => if 0 < k <= s.len() {
                match sp_subscription_list(s.skip(k)) {
                    Some(vs) => Some(seq![v] + vs),
                    None => None,
                }
            } else {
                None
            },
            None => None,
        }
    }
}

/// Reading strings until `s` is used up.
pub open spec fn sp_string_list(s: Seq<u8>) -> Option<Seq<Seq<char>>>
    decreases s.len(),
{
    if s.len() == 0 {
        Some(Seq::empty())
    } else {
        match sp_string(s) {
            Some((v, k)) => if 0 < k <= s.len() {
                match sp_string_list(s.skip(k)) {
                    Some(vs) => Some(seq![v] + vs),
                    None => None,
                }
            } else {
                None
            },
            None => None,
        }
    }
}

/// Reading a SUBSCRIBE body: at least one subscription.
pub open spec fn sp_subscribe(s: Seq<u8>) -> Option<(SubscribeV, int)> {
    match sp_packet_id(s) {
        Some((packet_id, k1)) => match sp_properties(s.skip(k1)) {
            Some((properties, k2)) => match sp_subscription_list(s.skip(k1 + k2)) {
                Some(subscriptions) => if subscriptions.len() == 0 {
                    None
                } else {
                    Some((SubscribeV { packet_id, properties, subscriptions }, s.len() as int))
                },
                None => None,
            },
            None => None,
        },
        None => None,
    }
}

/// Reading a SUBACK or UNSUBACK body: at least one reason code.
pub open spec fn sp_codes(s: Seq<u8>) -> Option<(CodesV, int)> {
    match sp_packet_id(s) {
        Some((packet_id, k1)) => match sp_properties(s.skip(k1)) {
            Some((properties, k2)) => {
                let reason_codes = s.skip(k1 + k2);
                if reason_codes.len() == 0 {
                    None
                } else {
                    Some((CodesV { packet_id, properties, reason_codes }, s.len() as int))
                }
            },
            None => None,
        },
        None => None,
    }
}

/// Reading an UNSUBSCRIBE body: at least one topic filter.
pub open spec fn sp_unsubscribe(s: Seq<u8>) -> Option<(UnsubscribeV, int)> {
    match sp_packet_id(s) {
        Some((packet_id, k1)) => match sp_properties(s.skip(k1)) {
            Some((properties, k2)) => match sp_string_list(s.skip(k1 + k2)) {
                Some(topic_filters) => if topic_filters.len() == 0 {
                    None
                } else {
                    Some((UnsubscribeV { packet_id, properties, topic_filters }, s.len() as int))
                },
                None => None,
            },
            None => None,
        },
        None => None,
    }
}

/// Reading a DISCONNECT or AUTH body: an empty body means reason 0.
pub open spec fn sp_reason(s: Seq<u8>) -> Option<(ReasonV, int)> {
    if s.len() == 0 {
        Some((ReasonV { reason_code: 0, properties: Seq::empty() }, 0))
    } else {
        match sp_u8(s) {
            Some((reason_code, k1)) => match sp_opt_properties(s.skip(k1)) {
                Some((properties, k2)) => Some((ReasonV { reason_code, properties }, k1 + k2)),
                None => None,
            },
            None => None,
        }
    }
}

/// The flags each packet type must carry (PUBLISH carries its own).
pub open spec fn required_flags(packet_type: u8) -> u8 {
    if packet_type == 6 || packet_type == 8 || packet_type == 10 {
        2
    } else {
        0
    }
}

/// Reading the body of a packet of `packet_type` with fixed-header `flags`.
#[verifier::opaque]
pub open spec fn sp_packet(packet_type: u8, flags: u8, s: Seq<u8>) -> Option<(PacketV, int)> {
    if packet_type < 1 || packet_type > 15 {
        None
    } else if packet_type != 3 && flags != required_flags(packet_type) {
        None
    } else if packet_type == 1 {
        match sp_connect(s) { Some((v, k)) => Some((PacketV::Connect(v), k)), None => None }
    } else if packet_type == 2 {
        match sp_connack(s) { Some((v, k)) => Some((PacketV::ConnAck(v), k)), None => None }
    } else if packet_type == 3 {
        match sp_publish(flags, s) { Some((v, k)) => Some((PacketV::Publish(v), k)), None => None }
    } else if packet_type == 4 {
        match sp_ack(s) { Some((v, k)) => Some((PacketV::PubAck(v), k)), None => None }
    } else if packet_type == 5 {
        match sp_ack(s) { Some((v, k)) => Some((PacketV::PubRec(v), k)), None => None }
    } else if packet_type == 6 {
        match sp_ack(s) { Some((v, k)) => Some((PacketV::PubRel(v), k)), None => None }
    } else if packet_type == 7 {
        match sp_ack(s) { Some((v, k)) => Some((PacketV::PubComp(v), k)), None => None }
    } else if packet_type == 8 {
        match sp_subscribe(s) { Some((v, k)) => Some((PacketV::Subscribe(v), k)), None => None }
    } else if packet_type == 9 {
        match sp_codes(s) { Some((v, k)) => Some((PacketV::SubAck(v), k)), None => None }
    } else if packet_type == 10 {
        match sp_unsubscribe(s) { Some((v, k)) => Some((PacketV::Unsubscribe(v), k)), None => None }
    } else if packet_type == 11 {
        match sp_codes(s) { Some((v, k)) => Some((PacketV::UnsubAck(v), k)), None => None }
    } else if packet_type == 12 {
        if s.len() == 0 { Some((PacketV::PingReq, 0)) } else { None }
    } else if packet_type == 13 {
        if s.len() == 0 { Some((PacketV::PingResp, 0)) } else { None }
    } else if packet_type == 14 {
        match sp_reason(s) { Some((v, k)) => Some((PacketV::Disconnect(v), k)), None => None }
    } else {
        match sp_reason(s) { Some((v, k)) => Some((PacketV::Auth(v), k)), None => None }
    }
}

/// Reads a CONNECT body: protocol name and level, flags, keep-alive,
/// properties, client identifier, and the will, user name and password the
/// flags announce.
#[verifier::rlimit(60)]
pub(crate) fn decode_connect(reader: &mut Reader<'_>) -> (res: Result<ConnectPacket>)
    requires
        old(reader).wf(),
    ensures
        final(reader).wf(),
        final(reader).src == old(reader).src,
        match sp_connect(old(reader).rest()) {
            Some((v, k)) => (res matches Ok(p) && p@ == v) && final(reader).rest() == old(reader).rest().skip(k),
            None => res matches Err(Error::Decode(_)),
        },
{
    let ghost s = reader.rest();
    let protocol_name = reader.read_utf8_string()?;
    let expected = owned("MQTT");
    if !(protocol_name == expected) {
        return Err(Error::Decode(message_with_text("invalid MQTT protocol name: ", protocol_name.as_str())));
    }
    let protocol_level = reader.read_u8()?;
    if protocol_level != 5 {
        return Err(Error::Decode(message_with_number("unsupported MQTT protocol level: ", protocol_level as u64)));
    }
    let flags = reader.read_u8()?;
    if flags & 0x01 != 0 {
        return Err(Error::Decode(owned("MQTT CONNECT reserved flag must be zero")));
    }
    let username_flag = flags & 0x80 != 0;
    let password_flag = flags & 0x40 != 0;
    let will_retain = flags & 0x20 != 0;
    let will_qos = QoS::from_u8((flags >> 3) & 0x03)?;
    let will_flag = flags & 0x04 != 0;
    if !will_flag && (will_retain || will_qos != QoS::AtMostOnce) {
        return Err(Error::Decode(owned("MQTT CONNECT will flags set without will flag")));
    }
    if password_flag && !username_flag {
        return Err(Error::Decode(owned("MQTT CONNECT password flag set without username flag")));
    }
    proof {
        lemma_sp_connect_payload_len(flags, reader.rest());
    }
    decode_connect_payload(flags, will_qos, reader)
}

/// Reads what follows the CONNECT flags.
#[verifier::rlimit(60)]
fn decode_connect_payload(flags: u8, will_qos: QoS, reader: &mut Reader<'_>) -> (res: Result<ConnectPacket>)
    requires
        old(reader).wf(),
        qos_of((flags >> 3) & 0x03) == Some(will_qos),
    ensures
        final(reader).wf(),
        final(reader).src == old(reader).src,
        match sp_connect_payload(flags, old(reader).rest()) {
            Some((v, k)) => (res matches Ok(p) && p@ == v) && final(reader).rest() == old(reader).rest().skip(k),
            None => res matches Err(Error::Decode(_)),
        },
{
    reveal(sp_connect_payload);
    let keep_alive = reader.read_u16()?;
    let properties = reader.read_properties()?;
    let client_id = reader.read_utf8_string()?;
    let will = decode_will(flags, will_qos, reader)?;
    let username = if flags & 0x80 != 0 {
        Some(reader.read_utf8_string()?)
    } else {
        None
    };
    let password = if flags & 0x40 != 0 {
        Some(reader.read_binary_data()?)
    } else {
        None
    };
    Ok(ConnectPacket {
        clean_start: flags & 0x02 != 0,
        keep_alive,
        properties,
        client_id,
        will,
        username,
        password,
    })
}

/// Reads the will of a CONNECT body when the will flag is set.
fn decode_will(flags: u8, will_qos: QoS, reader: &mut Reader<'_>) -> (res: Result<Option<Will>>)
    requires
        old(reader).wf(),
    ensures
        final(reader).wf(),
        final(reader).src == old(reader).src,
        match sp_will(flags, will_qos, old(reader).rest()) {
            Some((v, k)) => (res matches Ok(w) && v == (match w {
                Some(w) => Some(w@),
                None => None::<WillV>,
            })) && final(reader).rest() == old(reader).rest().skip(k),
            None => res matches Err(Error::Decode(_)),
        },
{
    if flags & 0x04 != 0 {
        let properties = reader.read_properties()?;
        let topic = reader.read_utf8_string()?;
        let payload = reader.read_binary_data()?;
        Ok(Some(Will { qos: will_qos, retain: flags & 0x20 != 0, properties, topic, payload }))
    } else {
        proof {
            assert(old(reader).rest().skip(0) =~= old(reader).rest());
        }
        Ok(None)
    }
}

/// A packet identifier of zero is refused.
fn ensure_nonzero_packet_id_decode(packet_id: u16) -> (res: Result<()>)
    ensures
        res is Ok <==> packet_id != 0,
        res is Err ==> res matches Err(Error::Decode(_)),
{
    if packet_id == 0 {
        return Err(Error::Decode(owned("MQTT packet identifier must be non-zero")));
    }
    Ok(())
}

/// Reads a non-zero packet identifier.
fn read_packet_id(reader: &mut Reader<'_>) -> (res: Result<u16>)
    requires
        old(reader).wf(),
    ensures
        final(reader).wf(),
        final(reader).src == old(reader).src,
        match sp_packet_id(old(reader).rest()) {
            Some((v, k)) => res == Ok::<u16, Error>(v) && final(reader).rest() == old(reader).rest().skip(k),
            None => res matches Err(Error::Decode(_)),
        },
{
    let packet_id = reader.read_u16()?;
    ensure_nonzero_packet_id_decode(packet_id)?;
    Ok(packet_id)
}

/// Reads properties when bytes remain; an exhausted body has none.
fn read_optional_properties(reader: &mut Reader<'_>) -> (res: Result<Vec<MqttProperty>>)
    requires
        old(reader).wf(),
    ensures
        final(reader).wf(),
        final(reader).src == old(reader).src,
        match sp_opt_properties(old(reader).rest()) {
            Some((v, k)) => (res matches Ok(ps) && properties_view(ps) == v)
                && final(reader).rest() == old(reader).rest().skip(k),
            None => res matches Err(Error::Decode(_)),
        },
{
    if reader.remaining() == 0 {
        let ps: Vec<MqttProperty> = Vec::new();
        proof {
            assert(properties_view(ps) =~= Seq::<PropertyV>::empty());
            assert(old(reader).rest().skip(0) =~= old(reader).rest());
        }
        Ok(ps)
    } else {
        reader.read_properties()
    }
}

/// Reads a CONNACK body.
pub(crate) fn decode_connack(reader: &mut Reader<'_>) -> (res: Result<ConnAckPacket>)
    requires
        old(reader).wf(),
    ensures
        final(reader).wf(),
        final(reader).src == old(reader).src,
        match sp_connack(old(reader).rest()) {
            Some((v, k)) => (res matches Ok(p) && p@ == v) && final(reader).rest() == old(reader).rest().skip(k),
            None => res matches Err(Error::Decode(_)),
        },
{
    let flags = reader.read_u8()?;
    if flags & !0x01u8 != 0 {
        return Err(Error::Decode(owned("invalid MQTT CONNACK flags")));
    }
    let reason_code = reader.read_u8()?;
    let properties = reader.read_properties()?;
    Ok(ConnAckPacket { session_present: flags & 0x01 != 0, reason_code, properties })
}

/// Reads a PUBLISH body; the QoS bits of `flags` decide whether a packet
/// identifier is present, and the payload is the rest of the body.
pub(crate) fn decode_publish(flags: u8, reader: &mut Reader<'_>) -> (res: Result<PublishPacket>)
    requires
        old(reader).wf(),
    ensures
        final(reader).wf(),
        final(reader).src == old(reader).src,
        match sp_publish(flags, old(reader).rest()) {
            Some((v, k)) => (res matches Ok(p) && p@ == v) && final(reader).rest() == old(reader).rest().skip(k),
            None => res matches Err(Error::Decode(_)),
        },
{
    let ghost s = reader.rest();
    let dup = flags & 0x08 != 0;
    let qos = QoS::from_u8((flags >> 1) & 0x03)?;
    let retain = flags & 0x01 != 0;
    let topic_name = reader.read_utf8_string()?;
    let packet_id = if qos == QoS::AtMostOnce {
        None
    } else {
        Some(read_packet_id(reader)?)
    };
    let properties = reader.read_properties()?;
    let payload = reader.read_remaining_bytes();
    proof {
        assert(s.skip(s.len() as int) =~= Seq::<u8>::empty());
    }
    Ok(PublishPacket { dup, qos, retain, topic_name, packet_id, properties, payload })
}

/// Reads a PUBACK, PUBREC, PUBREL or PUBCOMP body.
pub(crate) fn decode_ack(reader: &mut Reader<'_>) -> (res: Result<AckPacket>)
    requires
        old(reader).wf(),
    ensures
        final(reader).wf(),
        final(reader).src == old(reader).src,
        match sp_ack(old(reader).rest()) {
            Some((v, k)) => (res matches Ok(p) && p@ == v) && final(reader).rest() == old(reader).rest().skip(k),
            None => res matches Err(Error::Decode(_)),
        },
{
    let packet_id = read_packet_id(reader)?;
    if reader.remaining() == 0 {
        return Ok(AckPacket::new(packet_id, 0));
    }
    let reason_code = reader.read_u8()?;
    let properties = read_optional_properties(reader)?;
    Ok(AckPacket { packet_id, reason_code, properties })
}

/// Reads one subscription of a SUBSCRIBE body.
fn decode_subscription(reader: &mut Reader<'_>) -> (res: Result<Subscription>)
    requires
        old(reader).wf(),
    ensures
        final(reader).wf(),
        final(reader).src == old(reader).src,
        match sp_subscription(old(reader).rest()) {
            Some((v, k)) => (res matches Ok(p) && p@ == v) && final(reader).rest() == old(reader).rest().skip(k),
            None => res matches Err(Error::Decode(_)),
        },
{
    let topic_filter = reader.read_utf8_string()?;
    let options = reader.read_u8()?;
    let retain_handling = (options >> 4) & 0x03;
    if options & 0xc0 != 0 || retain_handling == 3 {
        return Err(Error::Decode(owned("invalid MQTT SUBSCRIBE options")));
    }
    let maximum_qos = QoS::from_u8(options & 0x03)?;
    Ok(Subscription {
        topic_filter,
        options: SubscriptionOptions {
            maximum_qos,
            no_local: options & 0x04 != 0,
            retain_as_published: options & 0x08 != 0,
            retain_handling,
        },
    })
}

/// A list parse of some bytes, once `done` has been read from their front.
pub open spec fn after_all<A>(done: Seq<A>, rest: Option<Seq<A>>) -> Option<Seq<A>> {
    match rest {
        Some(vs) => Some(done + vs),
        None => None,
    }
}

/// Reads a SUBSCRIBE body.
pub(crate) fn decode_subscribe(reader: &mut Reader<'_>) -> (res: Result<SubscribePacket>)
    requires
        old(reader).wf(),
    ensures
        final(reader).wf(),
        final(reader).src == old(reader).src,
        match sp_subscribe(old(reader).rest()) {
            Some((v, k)) => (res matches Ok(p) && p@ == v) && final(reader).rest() == old(reader).rest().skip(k),
            None => res matches Err(Error::Decode(_)),
        },
{
    let ghost s = reader.rest();
    let packet_id = read_packet_id(reader)?;
    let properties = reader.read_properties()?;
    let ghost t = reader.rest();
    let mut subscriptions: Vec<Subscription> = Vec::new();
    while reader.remaining() > 0
        invariant
            reader.wf(),
            reader.src == old(reader).src,
            s == old(reader).rest(),
            sp_subscription_list(t) is None ==> sp_subscribe(s) is None,
            sp_subscription_list(t) == after_all(
                subscriptions@.map_values(|x: Subscription| x@),
                sp_subscription_list(reader.rest()),
            ),
        decreases reader.rest().len(),
    {
        let ghost rb = reader.rest();
        let ghost done = subscriptions@.map_values(|x: Subscription| x@);
        let subscription = match decode_subscription(reader) {
            Ok(x) => x,
            Err(e) => {
                assert(sp_subscription_list(rb) is None);
                return Err(e);
            },
        };
        let ghost sv = subscription@;
        subscriptions.push(subscription);
        proof {
            let (v, j) = sp_subscription(rb)->0;
            assert(0 < j <= rb.len());
            assert(subscriptions@.map_values(|x: Subscription| x@) =~= done.push(v));
            match sp_subscription_list(rb.skip(j)) {
                Some(vs) => assert(done + (seq![v] + vs) =~= done.push(v) + vs),
                None => {},
            }
        }
    }
    proof {
        assert(reader.rest() =~= Seq::<u8>::empty());
        let done = subscriptions@.map_values(|x: Subscription| x@);
        assert(done + Seq::<SubscriptionV>::empty() =~= done);
        assert(s.skip(s.len() as int) =~= Seq::<u8>::empty());
    }
    if subscriptions.len() == 0 {
        return Err(Error::Decode(owned("MQTT SUBSCRIBE must include at least one subscription")));
    }
    Ok(SubscribePacket { packet_id, properties, subscriptions })
}

/// Reads the packet identifier, properties and reason codes shared by
/// SUBACK and UNSUBACK; an empty list is refused with `empty_message`.
fn decode_codes(reader: &mut Reader<'_>, empty_message: &str) -> (res: Result<(u16, Vec<MqttProperty>, Vec<u8>)>)
    requires
        old(reader).wf(),
    ensures
        final(reader).wf(),
        final(reader).src == old(reader).src,
        match sp_codes(old(reader).rest()) {
            Some((v, k)) => (res matches Ok((id, ps, codes)) && v == (CodesV {
                packet_id: id,
                properties: properties_view(ps),
                reason_codes: codes@,
            })) && final(reader).rest() == old(reader).rest().skip(k),
            None => res matches Err(Error::Decode(_)),
        },
{
    let ghost s = reader.rest();
    let packet_id = read_packet_id(reader)?;
    let properties = reader.read_properties()?;
    let remaining = reader.read_remaining_bytes();
    let reason_codes = slice_to_vec(bytes_as_slice(&remaining));
    proof {
        assert(s.skip(s.len() as int) =~= Seq::<u8>::empty());
    }
    if reason_codes.len() == 0 {
        return Err(Error::Decode(owned(empty_message)));
    }
    Ok((packet_id, properties, reason_codes))
}

/// Reads a SUBACK body.
pub(crate) fn decode_suback(reader: &mut Reader<'_>) -> (res: Result<SubAckPacket>)
    requires
        old(reader).wf(),
    ensures
        final(reader).wf(),
        final(reader).src == old(reader).src,
        match sp_codes(old(reader).rest()) {
            Some((v, k)) => (res matches Ok(p) && p@ == v) && final(reader).rest() == old(reader).rest().skip(k),
            None => res matches Err(Error::Decode(_)),
        },
{
    let (packet_id, properties, reason_codes) = decode_codes(reader, "MQTT SUBACK must include at least one reason code")?;
    Ok(SubAckPacket { packet_id, properties, reason_codes })
}

/// Reads an UNSUBACK body.
pub(crate) fn decode_unsuback(reader: &mut Reader<'_>) -> (res: Result<UnsubAckPacket>)
    requires
        old(reader).wf(),
    ensures
        final(reader).wf(),
        final(reader).src == old(reader).src,
        match sp_codes(old(reader).rest()) {
            Some((v, k)) => (res matches Ok(p) && p@ == v) && final(reader).rest() == old(reader).rest().skip(k),
            None => res matches Err(Error::Decode(_)),
        },
{
    let (packet_id, properties, reason_codes) = decode_codes(
        reader,
        "MQTT UNSUBACK must include at least one reason code",
    )?;
    Ok(UnsubAckPacket { packet_id, properties, reason_codes })
}

/// Reads an UNSUBSCRIBE body.
pub(crate) fn decode_unsubscribe(reader: &mut Reader<'_>) -> (res: Result<UnsubscribePacket>)
    requires
        old(reader).wf(),
    ensures
        final(reader).wf(),
        final(reader).src == old(reader).src,
        match sp_unsubscribe(old(reader).rest()) {
            Some((v, k)) => (res matches Ok(p) && p@ == v) && final(reader).rest() == old(reader).rest().skip(k),
            None => res matches Err(Error::Decode(_)),
        },
{
    let ghost s = reader.rest();
    let packet_id = read_packet_id(reader)?;
    let properties = reader.read_properties()?;
    let ghost t = reader.rest();
    let mut topic_filters: Vec<String> = Vec::new();
    while reader.remaining() > 0
        invariant
            reader.wf(),
            reader.src == old(reader).src,
            s == old(reader).rest(),
            sp_string_list(t) is None ==> sp_unsubscribe(s) is None,
            sp_string_list(t) == after_all(
                topic_filters@.map_values(|x: String| x@),
                sp_string_list(reader.rest()),
            ),
        decreases reader.rest().len(),
    {
        let ghost rb = reader.rest();
        let ghost done = topic_filters@.map_values(|x: String| x@);
        let topic_filter = match reader.read_utf8_string() {
            Ok(x) => x,
            Err(e) => {
                assert(sp_string_list(rb) is None);
                return Err(e);
            },
        };
        let ghost tv = topic_filter@;
        topic_filters.push(topic_filter);
        proof {
            let (v, j) = sp_string(rb)->0;
            assert(0 < j <= rb.len());
            assert(topic_filters@.map_values(|x: String| x@) =~= done.push(v));
            match sp_string_list(rb.skip(j)) {
                Some(vs) => assert(done + (seq![v] + vs) =~= done.push(v) + vs),
                None => {},
            }
        }
    }
    proof {
        assert(reader.rest() =~= Seq::<u8>::empty());
        let done = topic_filters@.map_values(|x: String| x@);
        assert(done + Seq::<Seq<char>>::empty() =~= done);
        assert(s.skip(s.len() as int) =~= Seq::<u8>::empty());
    }
    if topic_filters.len() == 0 {
        return Err(Error::Decode(owned("MQTT UNSUBSCRIBE must include at least one topic filter")));
    }
    Ok(UnsubscribePacket { packet_id, properties, topic_filters })
}

/// Reads the reason code and properties shared by DISCONNECT and AUTH.
fn decode_reason(reader: &mut Reader<'_>) -> (res: Result<(u8, Vec<MqttProperty>)>)
    requires
        old(reader).wf(),
    ensures
        final(reader).wf(),
        final(reader).src == old(reader).src,
        match sp_reason(old(reader).rest()) {
            Some((v, k)) => (res matches Ok((code, ps)) && v == (ReasonV {
                reason_code: code,
                properties: properties_view(ps),
            })) && final(reader).rest() == old(reader).rest().skip(k),
            None => res matches Err(Error::Decode(_)),
        },
{
    if reader.remaining() == 0 {
        let ps: Vec<MqttProperty> = Vec::new();
        proof {
            assert(properties_view(ps) =~= Seq::<PropertyV>::empty());
            assert(old(reader).rest().skip(0) =~= old(reader).rest());
        }
        return Ok((0, ps));
    }
    let reason_code = reader.read_u8()?;
    let properties = read_optional_properties(reader)?;
    Ok((reason_code, properties))
}

/// Reads a DISCONNECT body.
pub(crate) fn decode_disconnect(reader: &mut Reader<'_>) -> (res: Result<DisconnectPacket>)
    requires
        old(reader).wf(),
    ensures
        final(reader).wf(),
        final(reader).src == old(reader).src,
        match sp_reason(old(reader).rest()) {
            Some((v, k)) => (res matches Ok(p) && p@ == v) && final(reader).rest() == old(reader).rest().skip(k),
            None => res matches Err(Error::Decode(_)),
        },
{
    let (reason_code, properties) = decode_reason(reader)?;
    Ok(DisconnectPacket { reason_code, properties })
}

/// Reads an AUTH body.
pub(crate) fn decode_auth(reader: &mut Reader<'_>) -> (res: Result<AuthPacket>)
    requires
        old(reader).wf(),
    ensures
        final(reader).wf(),
        final(reader).src == old(reader).src,
        match sp_reason(old(reader).rest()) {
            Some((v, k)) => (res matches Ok(p) && p@ == v) && final(reader).rest() == old(reader).rest().skip(k),
            None => res matches Err(Error::Decode(_)),
        },
{
    let (reason_code, properties) = decode_reason(reader)?;
    Ok(AuthPacket { reason_code, properties })
}

/// The fixed header's flags must be those the packet type requires.
fn expect_flags(packet_type: u8, actual: u8, expected: u8) -> (res: Result<()>)
    ensures
        res is Ok <==> actual == expected,
        res is Err ==> res matches Err(Error::Decode(_)),
{
    if actual != expected {
        let kind = message_with_number("invalid MQTT flags for packet type ", packet_type as u64);
        let found = message_with_hex(": actual=", actual as u64);
        let wanted = message_with_hex(", expected=", expected as u64);
        let head = message_with_text(kind.as_str(), found.as_str());
        return Err(Error::Decode(message_with_text(head.as_str(), wanted.as_str())));
    }
    Ok(())
}

/// The body must hold nothing.
fn expect_empty(reader: &Reader<'_>) -> (res: Result<()>)
    requires
        reader.wf(),
    ensures
        res is Ok <==> reader.rest().len() == 0,
        res is Err ==> res matches Err(Error::Decode(_)),
{
    if reader.remaining() != 0 {
        let count = message_with_number("MQTT packet body must be empty, got ", reader.remaining() as u64);
        return Err(Error::Decode(message_with_text(count.as_str(), " bytes")));
    }
    Ok(())
}

/// Reads the body of a packet of `packet_type` whose fixed header carried `flags`.
#[verifier::rlimit(40)]
pub(crate) fn decode_packet(packet_type: u8, flags: u8, reader: &mut Reader<'_>) -> (res: Result<MqttPacket>)
    requires
        old(reader).wf(),
    ensures
        final(reader).wf(),
        final(reader).src == old(reader).src,
        match sp_packet(packet_type, flags, old(reader).rest()) {
            Some((v, k)) => (res matches Ok(p) && p@ == v) && final(reader).rest() == old(reader).rest().skip(k),
            None => res matches Err(Error::Decode(_)),
        },
{
    proof {
        reveal(sp_packet);
        assert(old(reader).rest().skip(0) =~= old(reader).rest());
    }
    match packet_type {
        1 => {
            expect_flags(packet_type, flags, 0)?;
            Ok(MqttPacket::Connect(decode_connect(reader)?))
        },
        2 => {
            expect_flags(packet_type, flags, 0)?;
            Ok(MqttPacket::ConnAck(decode_connack(reader)?))
        },
        3 => Ok(MqttPacket::Publish(decode_publish(flags, reader)?)),
        4 => {
            expect_flags(packet_type, flags, 0)?;
            Ok(MqttPacket::PubAck(decode_ack(reader)?))
        },
        5 => {
            expect_flags(packet_type, flags, 0)?;
            Ok(MqttPacket::PubRec(decode_ack(reader)?))
        },
        6 => {
            expect_flags(packet_type, flags, 2)?;
            Ok(MqttPacket::PubRel(decode_ack(reader)?))
        },
        7 => {
            expect_flags(packet_type, flags, 0)?;
            Ok(MqttPacket::PubComp(decode_ack(reader)?))
        },
        8 => {
            expect_flags(packet_type, flags, 2)?;
            Ok(MqttPacket::Subscribe(decode_subscribe(reader)?))
        },
        9 => {
            expect_flags(packet_type, flags, 0)?;
            Ok(MqttPacket::SubAck(decode_suback(reader)?))
        },
        10 => {
            expect_flags(packet_type, flags, 2)?;
            Ok(MqttPacket::Unsubscribe(decode_unsubscribe(reader)?))
        },
        11 => {
            expect_flags(packet_type, flags, 0)?;
            Ok(MqttPacket::UnsubAck(decode_unsuback(reader)?))
        },
        12 => {
            expect_flags(packet_type, flags, 0)?;
            expect_empty(reader)?;
            Ok(MqttPacket::PingReq)
        },
        13 => {
            expect_flags(packet_type, flags, 0)?;
            expect_empty(reader)?;
            Ok(MqttPacket::PingResp)
        },
        14 => {
            expect_flags(packet_type, flags, 0)?;
            Ok(MqttPacket::Disconnect(decode_disconnect(reader)?))
        },
        15 => {
            expect_flags(packet_type, flags, 0)?;
            Ok(MqttPacket::Auth(decode_auth(reader)?))
        },
        _ => Err(Error::Decode(message_with_number("invalid MQTT packet type: ", packet_type as u64))),
    }
}

/// The rest of a CONNECT body read takes no more bytes than there are.
proof fn lemma_sp_connect_payload_len(flags: u8, t: Seq<u8>)
    ensures
        sp_connect_payload(flags, t) matches Some((_, k)) ==> 0 <= k <= t.len(),
{
    reveal(sp_connect_payload);
    if let (Some((_, j1)), Some(q)) = (sp_u16(t), qos_of((flags >> 3) & 0x03)) {
        if let Some((_, j2)) = sp_properties(t.skip(j1)) {
            if let Some((_, j3)) = sp_string(t.skip(j1 + j2)) {
                let o3 = j1 + j2 + j3;
                if let Some((_, j4)) = sp_will(flags, q, t.skip(o3)) {
                    if flags & 0x04 != 0 {
                        let w = t.skip(o3);
                        if let Some((_, i1)) = sp_properties(w) {
                            if let Some((_, i2)) = sp_string(w.skip(i1)) {
                                assert(w.skip(i1).skip(i2) == w.skip(i1 + i2));
                            }
                        }
                    }
                }
            }
        }
    }
}

/// A CONNECT body read takes no more bytes than there are.
proof fn lemma_sp_connect_len(s: Seq<u8>)
    ensures
        sp_connect(s) matches Some((_, k)) ==> 0 <= k <= s.len(),
{
    if let Some((_, k1)) = sp_string(s) {
        if let Some((_, k2)) = sp_u8(s.skip(k1)) {
            if let Some((flags, k3)) = sp_u8(s.skip(k1 + k2)) {
                lemma_sp_connect_payload_len(flags, s.skip(k1 + k2 + k3));
            }
        }
    }
}

/// A packet body read takes no more bytes than there are.
pub proof fn lemma_sp_packet_len(packet_type: u8, flags: u8, s: Seq<u8>)
    ensures
        sp_packet(packet_type, flags, s) matches Some((_, k)) ==> 0 <= k <= s.len(),
{
    reveal(sp_packet);
    if packet_type == 1 {
        lemma_sp_connect_len(s);
    }
}

} // verus!
