//! What the MQTT codec promises across encoding and decoding: a packet it
//! writes is read back as the same packet.
use vstd::prelude::*;
use vstd::utf8::*;

use crate::codec::mqtt::property::{
    enc_properties, enc_property, enc_property_list, sp_properties, sp_property, sp_property_list,
    sp_property_value,
};
use crate::codec::mqtt::decode::{
    sp_packet, mqtt_name, sp_connect, sp_connect_flags, sp_connect_payload, sp_opt_binary, sp_opt_string, sp_publish, sp_will,
    sp_ack, sp_codes, sp_connack, sp_opt_properties, sp_packet_id, sp_reason, sp_string_list, sp_subscribe,
    sp_subscription, sp_subscription_list, sp_unsubscribe,
};
use crate::codec::mqtt::encode::{
    enc_packet, enc_connect, enc_connect_flags, enc_connect_payload, enc_opt_binary, enc_opt_string, enc_publish,
    enc_publish_flags, enc_will, enc_ack, enc_codes, enc_connack, enc_options_byte, enc_reason, enc_reason_tail, enc_string_list,
    enc_subscribe, enc_subscription, enc_subscription_list, enc_unsubscribe, flag_bit,
};
use crate::codec::mqtt::types::{
    qos_bits, qos_of, PacketV, ConnectV, PublishV, WillV, AckV, CodesV, ConnAckV, PropertyV, QoS, ReasonV, SubscribeV, SubscriptionOptions,
    SubscriptionV, UnsubscribeV,
};
use crate::codec::mqtt::wire::{
    cat,
    enc_binary, enc_string, enc_u16, enc_u32, enc_varint, lemma_pow128_facts, lemma_varint_size_max, pow128,
    sp_binary, sp_string, sp_u16, sp_u32, sp_u8, sp_varint, varint_encoding, varint_scan, varint_size,
    varint_value, VarintScan, MAX_REMAINING_LENGTH,
};
use crate::codec::mqtt::{mqtt_step, mqtt_write, MqttStep, MqttWrite};
use crate::uint::be_value;

verus! {

/// Two bytes written by `enc_u16` read back as the same integer.
pub proof fn lemma_u16_roundtrip(v: u16, t: Seq<u8>)
    ensures
        sp_u16(enc_u16(v) + t) == Some((v, 2int)),
{
    let s = enc_u16(v) + t;
    assert(s.take(2) =~= enc_u16(v));
    let b = enc_u16(v);
    reveal_with_fuel(be_value, 3);
    assert(b.drop_last().drop_last() =~= Seq::<u8>::empty());
    assert(b.drop_last() =~= seq![b[0]]);
    assert(((v / 256) as u8) as nat * 256 + ((v % 256) as u8) as nat == v as nat) by (nonlinear_arith);
}

/// Four bytes written by `enc_u32` read back as the same integer.
pub proof fn lemma_u32_roundtrip(v: u32, t: Seq<u8>)
    ensures
        sp_u32(enc_u32(v) + t) == Some((v, 4int)),
{
    let s = enc_u32(v) + t;
    let b = enc_u32(v);
    assert(s.take(4) =~= b);
    reveal_with_fuel(be_value, 5);
    assert(b.take(3) =~= seq![b[0], b[1], b[2]]);
    assert(b.take(2) =~= seq![b[0], b[1]]);
    assert(b.take(1) =~= seq![b[0]]);
    assert(b.drop_last() =~= b.take(3));
    assert(b.take(3).drop_last() =~= b.take(2));
    assert(b.take(2).drop_last() =~= b.take(1));
    assert(b.take(1).drop_last() =~= Seq::<u8>::empty());
    let c0: u32 = v / 0x100_0000;
    let c1: u32 = (v / 0x1_0000) % 256;
    let c2: u32 = (v / 256) % 256;
    let c3: u32 = v % 256;
    assert(((c0 * 256 + c1) * 256 + c2) * 256 + c3 == v) by (bit_vector)
        requires
            c0 == v / 0x100_0000,
            c1 == (v / 0x1_0000) % 256,
            c2 == (v / 256) % 256,
            c3 == v % 256,
    ;
    assert(c0 < 256) by (bit_vector)
        requires
            c0 == v / 0x100_0000,
    ;
    assert(b[0] as nat == c0 && b[1] as nat == c1 && b[2] as nat == c2 && b[3] as nat == c3);
}

/// Binary data written by `enc_binary` reads back as the same bytes.
pub proof fn lemma_binary_roundtrip(b: Seq<u8>, t: Seq<u8>)
    requires
        b.len() <= 65535,
    ensures
        sp_binary(enc_binary(b)->0 + t) == Some((b, 2 + b.len() as int)),
{
    let s = enc_binary(b)->0 + t;
    lemma_u16_roundtrip(b.len() as u16, b + t);
    assert(s =~= enc_u16(b.len() as u16) + (b + t));
    assert(s.subrange(2, 2 + b.len() as int) =~= b);
}

/// A string written by `enc_string` reads back as the same string.
#[verifier::rlimit(50)]
pub proof fn lemma_string_roundtrip(c: Seq<char>, t: Seq<u8>)
    requires
        enc_string(c) is Some,
    ensures
        sp_string(enc_string(c)->0 + t) == Some((c, enc_string(c)->0.len() as int)),
{
    let e = encode_utf8(c);
    let x = enc_string(c)->0 + t;
    lemma_utf8_facts(c);
    assert(enc_string(c) == enc_binary(e));
    lemma_binary_roundtrip(e, t);
    lemma_string_of_binary(x, e, c, 2 + e.len() as int);
}

proof fn lemma_utf8_facts(c: Seq<char>)
    ensures
        valid_utf8(encode_utf8(c)),
        decode_utf8(encode_utf8(c)) == c,
{
    encode_utf8_valid_utf8(c);
    encode_utf8_decode_utf8(c);
}

proof fn lemma_string_of_binary(x: Seq<u8>, e: Seq<u8>, c: Seq<char>, k: int)
    requires
        sp_binary(x) == Some((e, k)),
        valid_utf8(e),
        decode_utf8(e) == c,
    ensures
        sp_string(x) == Some((c, k)),
{
}

/// The bytes of a variable byte integer: all but the last have the high
/// bit set, and there are as many as its size says.
proof fn lemma_varint_encoding_bytes(v: nat)
    ensures
        varint_encoding(v).len() == varint_size(v),
        forall|i: int| 0 <= i < varint_encoding(v).len() - 1 ==> #[trigger] varint_encoding(v)[i] >= 128,
        varint_encoding(v)[varint_encoding(v).len() - 1] < 128,
    decreases v,
{
    if v >= 128 {
        lemma_varint_encoding_bytes(v / 128);
        let e = varint_encoding(v);
        let tail = varint_encoding(v / 128);
        assert forall|i: int| 0 <= i < e.len() - 1 implies #[trigger] e[i] >= 128 by {
            if i > 0 {
                assert(e[i] == tail[i - 1]);
            }
        }
        assert(e[e.len() - 1] == tail[tail.len() - 1]);
    }
}

/// The value of `k + 1` bytes is the first byte's low bits plus 128 times
/// the value of the `k` bytes after it.
proof fn lemma_varint_value_shift(b: u8, s: Seq<u8>, k: nat)
    requires
        k <= s.len(),
    ensures
        varint_value(seq![b] + s, k + 1) == (b % 128) as nat + 128 * varint_value(s, k),
    decreases k,
{
    lemma_pow128_facts(0);
    if k == 0 {
        let u = seq![b] + s;
        assert(u[0] == b);
        assert(varint_value(u, 1) == varint_value(u, 0) + (u[0] % 128) as nat * pow128(0));
        assert(varint_value(s, 0) == 0);
    } else {
        let u = seq![b] + s;
        lemma_varint_value_shift(b, s, (k - 1) as nat);
        assert(u[k as int] == s[k - 1]);
        lemma_pow128_succ((k - 1) as nat);
        let r = varint_value(s, (k - 1) as nat);
        let p = pow128((k - 1) as nat);
        let d = (s[k - 1] % 128) as nat;
        assert(varint_value(u, k + 1) == varint_value(u, k) + d * pow128(k));
        assert(varint_value(s, k) == r + d * p);
        assert(pow128(k) == 128 * p);
        assert(128 * (r + d * p) == 128 * r + d * (128 * p)) by (nonlinear_arith);
    }
}

proof fn lemma_pow128_succ(n: nat)
    ensures
        pow128(n + 1) == 128 * pow128(n),
{
}

/// A scan that meets only continuation bytes before index `len - 1`, and a
/// final byte there, completes with `len` bytes.
proof fn lemma_varint_scan_complete(s: Seq<u8>, i: nat, len: nat)
    requires
        i < len <= 4,
        len <= s.len(),
        forall|j: int| i <= j < len - 1 ==> #[trigger] s[j] >= 128,
        s[len - 1] < 128,
    ensures
        varint_scan(s, i) == (VarintScan::Complete { len: len as int }),
    decreases len - i,
{
    if i < len - 1 {
        lemma_varint_scan_complete(s, i + 1, len);
    }
}

/// The value of a variable byte integer's encoding is the integer.
proof fn lemma_varint_encoding_value(v: nat, t: Seq<u8>)
    ensures
        varint_value(varint_encoding(v) + t, varint_size(v)) == v,
    decreases v,
{
    lemma_varint_encoding_bytes(v);
    lemma_pow128_facts(0);
    if v < 128 {
        assert((varint_encoding(v) + t)[0] == v as u8);
        assert(varint_value(varint_encoding(v) + t, 1) == varint_value(varint_encoding(v) + t, 0) + ((v as u8) % 128) as nat * pow128(0));
    } else {
        lemma_varint_encoding_value(v / 128, t);
        lemma_varint_encoding_bytes(v / 128);
        let b = (v % 128 + 128) as u8;
        assert(varint_encoding(v) + t =~= seq![b] + (varint_encoding(v / 128) + t));
        lemma_varint_value_shift(b, varint_encoding(v / 128) + t, varint_size(v / 128));
        assert(b % 128 == v % 128);
    }
}

/// A variable byte integer written by the encoder reads back as the same
/// integer, taking as many bytes as were written.
pub proof fn lemma_varint_roundtrip(v: nat, t: Seq<u8>)
    requires
        v <= MAX_REMAINING_LENGTH,
    ensures
        sp_varint(varint_encoding(v) + t) == Some((v, varint_encoding(v).len() as int)),
        1 <= varint_encoding(v).len() <= 4,
{
    lemma_varint_encoding_bytes(v);
    lemma_varint_size_max(v);
    let s = varint_encoding(v) + t;
    let len = varint_size(v);
    assert forall|j: int| 0 <= j < len - 1 implies #[trigger] s[j] >= 128 by {
        assert(s[j] == varint_encoding(v)[j]);
    }
    assert(s[len - 1] == varint_encoding(v)[len - 1]);
    lemma_varint_scan_complete(s, 0, len);
    lemma_varint_encoding_value(v, t);
}


/// A one-byte identifier below `0x80` reads as a variable byte integer of
/// one byte.
proof fn lemma_id_prefix(id: u8, r: Seq<u8>)
    requires
        id < 128,
    ensures
        sp_varint(seq![id] + r) == Some((id as nat, 1int)),
        (seq![id] + r).skip(1) == r,
{
    let s = seq![id] + r;
    lemma_pow128_facts(0);
    assert(s[0] == id);
    assert(varint_scan(s, 0) == (VarintScan::Complete { len: 1 }));
    assert(varint_value(s, 1) == varint_value(s, 0) + (s[0] % 128) as nat * pow128(0));
    assert(s.skip(1) =~= r);
}

/// Reading a property whose encoding is `seq![id] + v` reads its value from
/// what follows the identifier.
proof fn lemma_property_after_id(id: u8, v: Seq<u8>, t: Seq<u8>)
    requires
        id < 128,
    ensures
        sp_property(seq![id] + v + t) == match sp_property_value(id, v + t) {
            Some((p, j)) => Some((p, 1 + j)),
            None => None,
        },
{
    assert(seq![id] + v + t =~= seq![id] + (v + t));
    lemma_id_prefix(id, v + t);
    assert(((id as nat) as u32) as u8 == id);
}

/// One byte reads back as itself.
proof fn lemma_u8_roundtrip(v: u8, t: Seq<u8>)
    ensures
        sp_u8(seq![v] + t) == Some((v, 1int)),
{
    assert((seq![v] + t)[0] == v);
}

/// A property written by the encoder reads back as the same property.
pub proof fn lemma_property_roundtrip(p: PropertyV, t: Seq<u8>)
    requires
        enc_property(p) is Some,
    ensures
        sp_property(enc_property(p)->0 + t) == Some((p, enc_property(p)->0.len() as int)),
        enc_property(p)->0.len() >= 2,
{
    if p is PayloadFormatIndicator || p is MessageExpiryInterval || p is ContentType || p is ResponseTopic || p is CorrelationData || p is SubscriptionIdentifier || p is SessionExpiryInterval {
        lemma_property_roundtrip_a(p, t);
    } else if p is AssignedClientIdentifier || p is ServerKeepAlive || p is AuthenticationMethod || p is AuthenticationData || p is RequestProblemInformation || p is WillDelayInterval || p is RequestResponseInformation {
        lemma_property_roundtrip_b(p, t);
    } else if p is ResponseInformation || p is ServerReference || p is ReasonString || p is ReceiveMaximum || p is TopicAliasMaximum || p is TopicAlias || p is MaximumQoS {
        lemma_property_roundtrip_c(p, t);
    } else {
        lemma_property_roundtrip_d(p, t);
    }
}

#[verifier::spinoff_prover]
#[verifier::rlimit(100)]
proof fn lemma_property_roundtrip_a(p: PropertyV, t: Seq<u8>)
    requires
        enc_property(p) is Some,
        p is PayloadFormatIndicator || p is MessageExpiryInterval || p is ContentType || p is ResponseTopic || p is CorrelationData || p is SubscriptionIdentifier || p is SessionExpiryInterval,
    ensures
        sp_property(enc_property(p)->0 + t) == Some((p, enc_property(p)->0.len() as int)),
        enc_property(p)->0.len() >= 2,
{
    let e = enc_property(p)->0;
    match p {
        PropertyV::PayloadFormatIndicator(v) => {
            assert(enc_property(p) == cat(Some(seq![0x01u8]), Some(seq![v]))) by {
                reveal(enc_property);
            }
            assert(sp_property_value(0x01, seq![v] + t) == Some((p, seq![v].len() as int))) by {
                reveal(sp_property_value);
                lemma_u8_roundtrip(v, t);
            }
            lemma_property_after_id(0x01, seq![v], t);
        },
        PropertyV::MessageExpiryInterval(v) => {
            assert(enc_property(p) == cat(Some(seq![0x02u8]), Some(enc_u32(v)))) by {
                reveal(enc_property);
            }
            assert(sp_property_value(0x02, enc_u32(v) + t) == Some((p, enc_u32(v).len() as int))) by {
                reveal(sp_property_value);
                lemma_u32_roundtrip(v, t);
            }
            lemma_property_after_id(0x02, enc_u32(v), t);
        },
        PropertyV::ContentType(v) => {
            assert(enc_property(p) == cat(Some(seq![0x03u8]), enc_string(v))) by {
                reveal(enc_property);
            }
            assert(sp_property_value(0x03, enc_string(v)->0 + t) == Some((p, enc_string(v)->0.len() as int))) by {
                reveal(sp_property_value);
                lemma_string_roundtrip(v, t);
            }
            lemma_property_after_id(0x03, enc_string(v)->0, t);
        },
        PropertyV::ResponseTopic(v) => {
            assert(enc_property(p) == cat(Some(seq![0x08u8]), enc_string(v))) by {
                reveal(enc_property);
            }
            assert(sp_property_value(0x08, enc_string(v)->0 + t) == Some((p, enc_string(v)->0.len() as int))) by {
                reveal(sp_property_value);
                lemma_string_roundtrip(v, t);
            }
            lemma_property_after_id(0x08, enc_string(v)->0, t);
        },
        PropertyV::CorrelationData(v) => {
            assert(enc_property(p) == cat(Some(seq![0x09u8]), enc_binary(v))) by {
                reveal(enc_property);
            }
            assert(sp_property_value(0x09, enc_binary(v)->0 + t) == Some((p, enc_binary(v)->0.len() as int))) by {
                reveal(sp_property_value);
                lemma_binary_roundtrip(v, t);
            }
            lemma_property_after_id(0x09, enc_binary(v)->0, t);
        },
        PropertyV::SubscriptionIdentifier(v) => {
            assert(enc_property(p) == cat(Some(seq![0x0bu8]), enc_varint(v as nat))) by {
                reveal(enc_property);
            }
            assert(sp_property_value(0x0b, varint_encoding(v as nat) + t) == Some((p, varint_encoding(v as nat).len() as int))) by {
                reveal(sp_property_value);
                lemma_varint_roundtrip(v as nat, t);
            }
            lemma_property_after_id(0x0b, varint_encoding(v as nat), t);
        },
        PropertyV::SessionExpiryInterval(v) => {
            assert(enc_property(p) == cat(Some(seq![0x11u8]), Some(enc_u32(v)))) by {
                reveal(enc_property);
            }
            assert(sp_property_value(0x11, enc_u32(v) + t) == Some((p, enc_u32(v).len() as int))) by {
                reveal(sp_property_value);
                lemma_u32_roundtrip(v, t);
            }
            lemma_property_after_id(0x11, enc_u32(v), t);
        },
        _ => {},
    }
}

#[verifier::spinoff_prover]
#[verifier::rlimit(100)]
proof fn lemma_property_roundtrip_b(p: PropertyV, t: Seq<u8>)
    requires
        enc_property(p) is Some,
        p is AssignedClientIdentifier || p is ServerKeepAlive || p is AuthenticationMethod || p is AuthenticationData || p is RequestProblemInformation || p is WillDelayInterval || p is RequestResponseInformation,
    ensures
        sp_property(enc_property(p)->0 + t) == Some((p, enc_property(p)->0.len() as int)),
        enc_property(p)->0.len() >= 2,
{
    let e = enc_property(p)->0;
    match p {
        PropertyV::AssignedClientIdentifier(v) => {
            assert(enc_property(p) == cat(Some(seq![0x12u8]), enc_string(v))) by {
                reveal(enc_property);
            }
            assert(sp_property_value(0x12, enc_string(v)->0 + t) == Some((p, enc_string(v)->0.len() as int))) by {
                reveal(sp_property_value);
                lemma_string_roundtrip(v, t);
            }
            lemma_property_after_id(0x12, enc_string(v)->0, t);
        },
        PropertyV::ServerKeepAlive(v) => {
            assert(enc_property(p) == cat(Some(seq![0x13u8]), Some(enc_u16(v)))) by {
                reveal(enc_property);
            }
            assert(sp_property_value(0x13, enc_u16(v) + t) == Some((p, enc_u16(v).len() as int))) by {
                reveal(sp_property_value);
                lemma_u16_roundtrip(v, t);
            }
            lemma_property_after_id(0x13, enc_u16(v), t);
        },
        PropertyV::AuthenticationMethod(v) => {
            assert(enc_property(p) == cat(Some(seq![0x15u8]), enc_string(v))) by {
                reveal(enc_property);
            }
            assert(sp_property_value(0x15, enc_string(v)->0 + t) == Some((p, enc_string(v)->0.len() as int))) by {
                reveal(sp_property_value);
                lemma_string_roundtrip(v, t);
            }
            lemma_property_after_id(0x15, enc_string(v)->0, t);
        },
        PropertyV::AuthenticationData(v) => {
            assert(enc_property(p) == cat(Some(seq![0x16u8]), enc_binary(v))) by {
                reveal(enc_property);
            }
            assert(sp_property_value(0x16, enc_binary(v)->0 + t) == Some((p, enc_binary(v)->0.len() as int))) by {
                reveal(sp_property_value);
                lemma_binary_roundtrip(v, t);
            }
            lemma_property_after_id(0x16, enc_binary(v)->0, t);
        },
        PropertyV::RequestProblemInformation(v) => {
            assert(enc_property(p) == cat(Some(seq![0x17u8]), Some(seq![v]))) by {
                reveal(enc_property);
            }
            assert(sp_property_value(0x17, seq![v] + t) == Some((p, seq![v].len() as int))) by {
                reveal(sp_property_value);
                lemma_u8_roundtrip(v, t);
            }
            lemma_property_after_id(0x17, seq![v], t);
        },
        PropertyV::WillDelayInterval(v) => {
            assert(enc_property(p) == cat(Some(seq![0x18u8]), Some(enc_u32(v)))) by {
                reveal(enc_property);
            }
            assert(sp_property_value(0x18, enc_u32(v) + t) == Some((p, enc_u32(v).len() as int))) by {
                reveal(sp_property_value);
                lemma_u32_roundtrip(v, t);
            }
            lemma_property_after_id(0x18, enc_u32(v), t);
        },
        PropertyV::RequestResponseInformation(v) => {
            assert(enc_property(p) == cat(Some(seq![0x19u8]), Some(seq![v]))) by {
                reveal(enc_property);
            }
            assert(sp_property_value(0x19, seq![v] + t) == Some((p, seq![v].len() as int))) by {
                reveal(sp_property_value);
                lemma_u8_roundtrip(v, t);
            }
            lemma_property_after_id(0x19, seq![v], t);
        },
        _ => {},
    }
}

#[verifier::spinoff_prover]
#[verifier::rlimit(100)]
proof fn lemma_property_roundtrip_c(p: PropertyV, t: Seq<u8>)
    requires
        enc_property(p) is Some,
        p is ResponseInformation || p is ServerReference || p is ReasonString || p is ReceiveMaximum || p is TopicAliasMaximum || p is TopicAlias || p is MaximumQoS,
    ensures
        sp_property(enc_property(p)->0 + t) == Some((p, enc_property(p)->0.len() as int)),
        enc_property(p)->0.len() >= 2,
{
    let e = enc_property(p)->0;
    match p {
        PropertyV::ResponseInformation(v) => {
            assert(enc_property(p) == cat(Some(seq![0x1au8]), enc_string(v))) by {
                reveal(enc_property);
            }
            assert(sp_property_value(0x1a, enc_string(v)->0 + t) == Some((p, enc_string(v)->0.len() as int))) by {
                reveal(sp_property_value);
                lemma_string_roundtrip(v, t);
            }
            lemma_property_after_id(0x1a, enc_string(v)->0, t);
        },
        PropertyV::ServerReference(v) => {
            assert(enc_property(p) == cat(Some(seq![0x1cu8]), enc_string(v))) by {
                reveal(enc_property);
            }
            assert(sp_property_value(0x1c, enc_string(v)->0 + t) == Some((p, enc_string(v)->0.len() as int))) by {
                reveal(sp_property_value);
                lemma_string_roundtrip(v, t);
            }
            lemma_property_after_id(0x1c, enc_string(v)->0, t);
        },
        PropertyV::ReasonString(v) => {
            assert(enc_property(p) == cat(Some(seq![0x1fu8]), enc_string(v))) by {
                reveal(enc_property);
            }
            assert(sp_property_value(0x1f, enc_string(v)->0 + t) == Some((p, enc_string(v)->0.len() as int))) by {
                reveal(sp_property_value);
                lemma_string_roundtrip(v, t);
            }
            lemma_property_after_id(0x1f, enc_string(v)->0, t);
        },
        PropertyV::ReceiveMaximum(v) => {
            assert(enc_property(p) == cat(Some(seq![0x21u8]), Some(enc_u16(v)))) by {
                reveal(enc_property);
            }
            assert(sp_property_value(0x21, enc_u16(v) + t) == Some((p, enc_u16(v).len() as int))) by {
                reveal(sp_property_value);
                lemma_u16_roundtrip(v, t);
            }
            lemma_property_after_id(0x21, enc_u16(v), t);
        },
        PropertyV::TopicAliasMaximum(v) => {
            assert(enc_property(p) == cat(Some(seq![0x22u8]), Some(enc_u16(v)))) by {
                reveal(enc_property);
            }
            assert(sp_property_value(0x22, enc_u16(v) + t) == Some((p, enc_u16(v).len() as int))) by {
                reveal(sp_property_value);
                lemma_u16_roundtrip(v, t);
            }
            lemma_property_after_id(0x22, enc_u16(v), t);
        },
        PropertyV::TopicAlias(v) => {
            assert(enc_property(p) == cat(Some(seq![0x23u8]), Some(enc_u16(v)))) by {
                reveal(enc_property);
            }
            assert(sp_property_value(0x23, enc_u16(v) + t) == Some((p, enc_u16(v).len() as int))) by {
                reveal(sp_property_value);
                lemma_u16_roundtrip(v, t);
            }
            lemma_property_after_id(0x23, enc_u16(v), t);
        },
        PropertyV::MaximumQoS(v) => {
            assert(enc_property(p) == cat(Some(seq![0x24u8]), Some(seq![v]))) by {
                reveal(enc_property);
            }
            assert(sp_property_value(0x24, seq![v] + t) == Some((p, seq![v].len() as int))) by {
                reveal(sp_property_value);
                lemma_u8_roundtrip(v, t);
            }
            lemma_property_after_id(0x24, seq![v], t);
        },
        _ => {},
    }
}

#[verifier::spinoff_prover]
#[verifier::rlimit(100)]
proof fn lemma_property_roundtrip_d(p: PropertyV, t: Seq<u8>)
    requires
        enc_property(p) is Some,
        !(p is PayloadFormatIndicator || p is MessageExpiryInterval || p is ContentType || p is ResponseTopic || p is CorrelationData || p is SubscriptionIdentifier || p is SessionExpiryInterval || p is AssignedClientIdentifier || p is ServerKeepAlive || p is AuthenticationMethod || p is AuthenticationData || p is RequestProblemInformation || p is WillDelayInterval || p is RequestResponseInformation || p is ResponseInformation || p is ServerReference || p is ReasonString || p is ReceiveMaximum || p is TopicAliasMaximum || p is TopicAlias || p is MaximumQoS),
    ensures
        sp_property(enc_property(p)->0 + t) == Some((p, enc_property(p)->0.len() as int)),
        enc_property(p)->0.len() >= 2,
{
    let e = enc_property(p)->0;
    match p {
        PropertyV::RetainAvailable(v) => {
            assert(enc_property(p) == cat(Some(seq![0x25u8]), Some(seq![v]))) by {
                reveal(enc_property);
            }
            assert(sp_property_value(0x25, seq![v] + t) == Some((p, seq![v].len() as int))) by {
                reveal(sp_property_value);
                lemma_u8_roundtrip(v, t);
            }
            lemma_property_after_id(0x25, seq![v], t);
        },
        PropertyV::UserProperty(key, value) => {
            assert(enc_property(p) == cat(cat(Some(seq![0x26u8]), enc_string(key)), enc_string(value))) by {
                reveal(enc_property);
            }
            let ek = enc_string(key)->0;
            let ev = enc_string(value)->0;
            assert(sp_property_value(0x26, ek + ev + t) == Some((p, (ek + ev).len() as int))) by {
                reveal(sp_property_value);
                lemma_string_roundtrip(key, ev + t);
                lemma_string_roundtrip(value, t);
                assert(ek + ev + t =~= ek + (ev + t));
                assert((ek + (ev + t)).skip(ek.len() as int) =~= ev + t);
            }
            assert(e =~= seq![0x26u8] + (ek + ev));
            lemma_property_after_id(0x26, ek + ev, t);
        },
        PropertyV::MaximumPacketSize(v) => {
            assert(enc_property(p) == cat(Some(seq![0x27u8]), Some(enc_u32(v)))) by {
                reveal(enc_property);
            }
            assert(sp_property_value(0x27, enc_u32(v) + t) == Some((p, enc_u32(v).len() as int))) by {
                reveal(sp_property_value);
                lemma_u32_roundtrip(v, t);
            }
            lemma_property_after_id(0x27, enc_u32(v), t);
        },
        PropertyV::WildcardSubscriptionAvailable(v) => {
            assert(enc_property(p) == cat(Some(seq![0x28u8]), Some(seq![v]))) by {
                reveal(enc_property);
            }
            assert(sp_property_value(0x28, seq![v] + t) == Some((p, seq![v].len() as int))) by {
                reveal(sp_property_value);
                lemma_u8_roundtrip(v, t);
            }
            lemma_property_after_id(0x28, seq![v], t);
        },
        PropertyV::SubscriptionIdentifierAvailable(v) => {
            assert(enc_property(p) == cat(Some(seq![0x29u8]), Some(seq![v]))) by {
                reveal(enc_property);
            }
            assert(sp_property_value(0x29, seq![v] + t) == Some((p, seq![v].len() as int))) by {
                reveal(sp_property_value);
                lemma_u8_roundtrip(v, t);
            }
            lemma_property_after_id(0x29, seq![v], t);
        },
        PropertyV::SharedSubscriptionAvailable(v) => {
            assert(enc_property(p) == cat(Some(seq![0x2au8]), Some(seq![v]))) by {
                reveal(enc_property);
            }
            assert(sp_property_value(0x2a, seq![v] + t) == Some((p, seq![v].len() as int))) by {
                reveal(sp_property_value);
                lemma_u8_roundtrip(v, t);
            }
            lemma_property_after_id(0x2a, seq![v], t);
        },
        _ => {},
    }
}

/// Concatenation of encodings is associative.
proof fn lemma_cat_assoc(a: Option<Seq<u8>>, b: Option<Seq<u8>>, c: Option<Seq<u8>>)
    ensures
        cat(cat(a, b), c) == cat(a, cat(b, c)),
{
    if let (Some(x), Some(y), Some(z)) = (a, b, c) {
        assert(x + y + z =~= x + (y + z));
    }
}

/// The empty encoding is a unit of concatenation.
proof fn lemma_cat_empty(a: Option<Seq<u8>>)
    ensures
        cat(Some(Seq::empty()), a) == a,
        cat(a, Some(Seq::empty())) == a,
{
    if let Some(x) = a {
        assert(Seq::<u8>::empty() + x =~= x);
        assert(x + Seq::<u8>::empty() =~= x);
    }
}

/// The encoding of a list of properties, taken from the front.
proof fn lemma_enc_property_list_cons(p: PropertyV, ps: Seq<PropertyV>)
    ensures
        enc_property_list(seq![p] + ps) == cat(enc_property(p), enc_property_list(ps)),
    decreases ps.len(),
{
    let q = seq![p] + ps;
    if ps.len() == 0 {
        assert(q.drop_last() =~= Seq::<PropertyV>::empty());
        assert(q.last() == p);
        assert(enc_property_list(ps) == Some(Seq::<u8>::empty()));
        assert(enc_property_list(q.drop_last()) == Some(Seq::<u8>::empty()));
        assert(enc_property_list(q) == cat(enc_property_list(q.drop_last()), enc_property(q.last())));
        lemma_cat_empty(enc_property(p));
    } else {
        assert(q.drop_last() =~= seq![p] + ps.drop_last());
        assert(q.last() == ps.last());
        assert(enc_property_list(q) == cat(enc_property_list(q.drop_last()), enc_property(q.last())));
        assert(enc_property_list(ps) == cat(enc_property_list(ps.drop_last()), enc_property(ps.last())));
        lemma_enc_property_list_cons(p, ps.drop_last());
        lemma_cat_assoc(enc_property(p), enc_property_list(ps.drop_last()), enc_property(ps.last()));
    }
}

/// Properties written one after another read back as the same list.
proof fn lemma_property_list_roundtrip(ps: Seq<PropertyV>)
    requires
        enc_property_list(ps) is Some,
    ensures
        sp_property_list(enc_property_list(ps)->0) == Some(ps),
    decreases ps.len(),
{
    if ps.len() > 0 {
        let rest = ps.skip(1);
        assert(ps =~= seq![ps[0]] + rest);
        lemma_enc_property_list_cons(ps[0], rest);
        let a = enc_property(ps[0])->0;
        let b = enc_property_list(rest)->0;
        lemma_property_roundtrip(ps[0], b);
        lemma_property_list_roundtrip(rest);
        assert((a + b).skip(a.len() as int) =~= b);
    }
}

/// A property block written by the encoder reads back as the same
/// properties, as long as its length fits the `u32` the encoder computes.
pub proof fn lemma_properties_roundtrip(ps: Seq<PropertyV>, t: Seq<u8>)
    requires
        enc_properties(ps) is Some,
        enc_properties(ps)->0.len() <= u32::MAX,
    ensures
        sp_properties(enc_properties(ps)->0 + t) == Some((ps, enc_properties(ps)->0.len() as int)),
{
    let b = enc_property_list(ps)->0;
    let n = b.len();
    assert((n as u32) as nat == n);
    let v = varint_encoding(n);
    lemma_varint_roundtrip(n, b + t);
    let s = v + b + t;
    assert(s =~= v + (b + t));
    assert(s.subrange(v.len() as int, (v.len() + n) as int) =~= b);
    lemma_property_list_roundtrip(ps);
}


/// The byte of a flag has no bit but the lowest, and that bit is the flag.
proof fn lemma_flag_bit(b: bool)
    ensures
        flag_bit(b) & !0x01u8 == 0,
        (flag_bit(b) & 0x01 != 0) == b,
        flag_bit(b) <= 1,
{
    let x = flag_bit(b);
    assert(x <= 1 ==> (x & !0x01u8 == 0 && ((x & 0x01 != 0) == (x == 1)))) by (bit_vector);
}

/// A non-zero packet identifier reads back as itself.
proof fn lemma_packet_id_roundtrip(id: u16, t: Seq<u8>)
    requires
        id != 0,
    ensures
        sp_packet_id(enc_u16(id) + t) == Some((id, 2int)),
        (enc_u16(id) + t).skip(2) == t,
{
    lemma_u16_roundtrip(id, t);
    assert((enc_u16(id) + t).skip(2) =~= t);
}

/// A properties block followed by `t`: what reading it leaves is `t`.
proof fn lemma_properties_then(ps: Seq<PropertyV>, t: Seq<u8>)
    requires
        enc_properties(ps) is Some,
        enc_properties(ps)->0.len() <= u32::MAX,
    ensures
        sp_properties(enc_properties(ps)->0 + t) == Some((ps, enc_properties(ps)->0.len() as int)),
        (enc_properties(ps)->0 + t).skip(enc_properties(ps)->0.len() as int) == t,
{
    lemma_properties_roundtrip(ps, t);
    assert((enc_properties(ps)->0 + t).skip(enc_properties(ps)->0.len() as int) =~= t);
}

/// A CONNACK body written by the encoder reads back as the same packet.
pub proof fn lemma_connack_roundtrip(p: ConnAckV)
    requires
        enc_connack(p) is Some,
        enc_connack(p)->0.len() <= u32::MAX,
    ensures
        sp_connack(enc_connack(p)->0) == Some((p, enc_connack(p)->0.len() as int)),
{
    let b = enc_connack(p)->0;
    let e = enc_properties(p.properties)->0;
    let f = flag_bit(p.session_present);
    lemma_flag_bit(p.session_present);
    assert(b =~= seq![f] + (seq![p.reason_code] + e));
    assert(b.skip(1) =~= seq![p.reason_code] + e);
    assert(b.skip(2) =~= e + Seq::<u8>::empty());
    lemma_properties_then(p.properties, Seq::empty());
}

/// The reason code and properties that close a body read back, after `k`
/// bytes already read, as the same code and properties.
proof fn lemma_reason_tail_roundtrip(code: u8, ps: Seq<PropertyV>)
    requires
        enc_reason_tail(code, ps) is Some,
        enc_reason_tail(code, ps)->0.len() <= u32::MAX,
    ensures
        ({
            let b = enc_reason_tail(code, ps)->0;
            &&& (b.len() == 0 <==> (code == 0 && ps.len() == 0))
            &&& b.len() != 0 ==> sp_u8(b) == Some((code, 1int))
            &&& b.len() != 0 ==> sp_opt_properties(b.skip(1)) == Some((ps, b.len() - 1))
        }),
{
    let b = enc_reason_tail(code, ps)->0;
    if ps.len() != 0 {
        let e = enc_properties(ps)->0;
        assert(b =~= seq![code] + e);
        assert(b.skip(1) =~= e + Seq::<u8>::empty());
        lemma_properties_then(ps, Seq::empty());
        assert(e.len() > 0);
    } else if code != 0 {
        assert(b.skip(1) =~= Seq::<u8>::empty());
        assert(ps =~= Seq::<PropertyV>::empty());
    }
}

/// A PUBACK, PUBREC, PUBREL or PUBCOMP body written by the encoder reads
/// back as the same packet.
pub proof fn lemma_ack_roundtrip(p: AckV)
    requires
        enc_ack(p) is Some,
        enc_ack(p)->0.len() <= u32::MAX,
    ensures
        sp_ack(enc_ack(p)->0) == Some((p, enc_ack(p)->0.len() as int)),
{
    let b = enc_ack(p)->0;
    let tail = enc_reason_tail(p.reason_code, p.properties)->0;
    assert(b == enc_u16(p.packet_id) + tail);
    lemma_packet_id_roundtrip(p.packet_id, tail);
    lemma_reason_tail_roundtrip(p.reason_code, p.properties);
    if tail.len() == 0 {
        assert(p.properties =~= Seq::<PropertyV>::empty());
    } else {
        assert(b.skip(2).skip(1) =~= tail.skip(1));
        assert(b.skip(3) =~= tail.skip(1));
    }
}

/// A DISCONNECT or AUTH body written by the encoder reads back as the same
/// packet.
pub proof fn lemma_reason_roundtrip(p: ReasonV)
    requires
        enc_reason(p) is Some,
        enc_reason(p)->0.len() <= u32::MAX,
    ensures
        sp_reason(enc_reason(p)->0) == Some((p, enc_reason(p)->0.len() as int)),
{
    lemma_reason_tail_roundtrip(p.reason_code, p.properties);
    if enc_reason(p)->0.len() == 0 {
        assert(p.properties =~= Seq::<PropertyV>::empty());
    }
}

/// A SUBACK or UNSUBACK body written by the encoder reads back as the same
/// packet.
pub proof fn lemma_codes_roundtrip(p: CodesV)
    requires
        enc_codes(p) is Some,
        enc_codes(p)->0.len() <= u32::MAX,
    ensures
        sp_codes(enc_codes(p)->0) == Some((p, enc_codes(p)->0.len() as int)),
{
    let b = enc_codes(p)->0;
    let e = enc_properties(p.properties)->0;
    let c = p.reason_codes;
    assert(b =~= enc_u16(p.packet_id) + (e + c));
    lemma_packet_id_roundtrip(p.packet_id, e + c);
    lemma_properties_then(p.properties, c);
    assert(b.skip(2 + e.len() as int) =~= c);
}


/// The number of a QoS level names that level.
proof fn lemma_qos_bits(q: QoS)
    ensures
        qos_of(qos_bits(q)) == Some(q),
        qos_bits(q) <= 2,
{
}

/// The bits of a subscription options byte.
proof fn lemma_options_bits(q: u8, n: u8, r: u8, h: u8)
    by (bit_vector)
    requires
        q <= 2,
        n <= 1,
        r <= 1,
        h <= 2,
    ensures
        (((q | (n << 2)) | (r << 3)) | (h << 4)) & 0xc0 == 0,
        ((((q | (n << 2)) | (r << 3)) | (h << 4)) >> 4) & 0x03 == h,
        (((q | (n << 2)) | (r << 3)) | (h << 4)) & 0x03 == q,
        ((((q | (n << 2)) | (r << 3)) | (h << 4)) & 0x04 != 0) == (n == 1),
        ((((q | (n << 2)) | (r << 3)) | (h << 4)) & 0x08 != 0) == (r == 1),
{
}

/// A subscription written by the encoder reads back as the same subscription.
proof fn lemma_subscription_roundtrip(v: SubscriptionV, t: Seq<u8>)
    requires
        enc_subscription(v) is Some,
    ensures
        sp_subscription(enc_subscription(v)->0 + t) == Some((v, enc_subscription(v)->0.len() as int)),
        enc_subscription(v)->0.len() >= 3,
{
    let o = v.options;
    let es = enc_string(v.topic_filter)->0;
    let byte = enc_options_byte(o);
    let s = enc_subscription(v)->0 + t;
    assert(s =~= es + (seq![byte] + t));
    lemma_string_roundtrip(v.topic_filter, seq![byte] + t);
    assert(s.skip(es.len() as int) =~= seq![byte] + t);
    lemma_qos_bits(o.maximum_qos);
    lemma_flag_bit(o.no_local);
    lemma_flag_bit(o.retain_as_published);
    lemma_options_bits(qos_bits(o.maximum_qos), flag_bit(o.no_local), flag_bit(o.retain_as_published), o.retain_handling);
}

/// Bits that do not overlap add up.
proof fn lemma_options_sum(q: u8, n: u8, r: u8, h: u8)
    by (bit_vector)
    requires
        q <= 3,
        n <= 1,
        r <= 1,
        h <= 3,
    ensures
        ((q | (n << 2)) | (r << 3)) | (h << 4) == q + 4 * n + 8 * r + 16 * h,
{
}

/// The fields of a byte below 64, by weight.
proof fn lemma_options_fields(b: u8)
    by (bit_vector)
    requires
        b < 64,
    ensures
        b & 0xc0 == 0,
        (b >> 4) & 0x03 == b / 16,
        b & 0x03 == b % 4,
        (b & 0x04 != 0) == ((b / 4) % 2 == 1),
        (b & 0x08 != 0) == ((b / 8) % 2 == 1),
{
}

/// The options byte of a subscription (MQTT 5, section 3.8.3.1) weighs the
/// maximum QoS by 1 (bits 0-1), No Local by 4 (bit 2), Retain As Published
/// by 8 (bit 3) and Retain Handling by 16 (bits 4-5); it follows the topic
/// filter.
pub proof fn lemma_subscription_options_encoding(s: SubscriptionV)
    requires
        enc_string(s.topic_filter) is Some,
        s.options.retain_handling <= 2,
    ensures
        enc_subscription(s) == Some(enc_string(s.topic_filter)->0 + seq![(
            (match s.options.maximum_qos {
                QoS::AtMostOnce => 0int,
                QoS::AtLeastOnce => 1int,
                QoS::ExactlyOnce => 2int,
            }) + (if s.options.no_local { 4int } else { 0int }) + (if s.options.retain_as_published {
                8int
            } else {
                0int
            }) + 16 * s.options.retain_handling) as u8]),
{
    let o = s.options;
    lemma_qos_bits(o.maximum_qos);
    lemma_flag_bit(o.no_local);
    lemma_flag_bit(o.retain_as_published);
    lemma_options_sum(qos_bits(o.maximum_qos), flag_bit(o.no_local), flag_bit(o.retain_as_published), o.retain_handling);
}

/// Reading a subscription whose options byte is `b` (below 64, with a QoS
/// and a retain handling other than 3): bit 2 is No Local, bit 3 Retain As
/// Published, bits 0-1 the maximum QoS and bits 4-5 the retain handling,
/// and the subscription ends right after that byte.
pub proof fn lemma_subscription_options_decoding(topic: Seq<char>, b: u8, t: Seq<u8>)
    requires
        enc_string(topic) is Some,
        b < 64,
        b % 4 != 3,
        b / 16 != 3,
    ensures
        sp_subscription(enc_string(topic)->0 + seq![b] + t) matches Some((v, k)) && k == enc_string(topic)->0.len()
            + 1 && v.topic_filter == topic && v.options.no_local == ((b / 4) % 2 == 1)
            && v.options.retain_as_published == ((b / 8) % 2 == 1) && v.options.retain_handling == b / 16
            && v.options.maximum_qos == (if b % 4 == 0 {
            QoS::AtMostOnce
        } else if b % 4 == 1 {
            QoS::AtLeastOnce
        } else {
            QoS::ExactlyOnce
        }),
{
    let es = enc_string(topic)->0;
    let s = es + seq![b] + t;
    assert(s =~= es + (seq![b] + t));
    lemma_string_roundtrip(topic, seq![b] + t);
    assert(s.skip(es.len() as int) =~= seq![b] + t);
    lemma_options_fields(b);
}

/// The encoding of subscriptions, taken from the front.
proof fn lemma_enc_subscription_list_cons(v: SubscriptionV, vs: Seq<SubscriptionV>)
    ensures
        enc_subscription_list(seq![v] + vs) == cat(enc_subscription(v), enc_subscription_list(vs)),
    decreases vs.len(),
{
    let q = seq![v] + vs;
    if vs.len() == 0 {
        assert(q.drop_last() =~= Seq::<SubscriptionV>::empty());
        assert(q.last() == v);
        assert(enc_subscription_list(q.drop_last()) == Some(Seq::<u8>::empty()));
        assert(enc_subscription_list(q) == cat(enc_subscription_list(q.drop_last()), enc_subscription(q.last())));
        lemma_cat_empty(enc_subscription(v));
    } else {
        assert(q.drop_last() =~= seq![v] + vs.drop_last());
        assert(q.last() == vs.last());
        assert(enc_subscription_list(q) == cat(enc_subscription_list(q.drop_last()), enc_subscription(q.last())));
        assert(enc_subscription_list(vs) == cat(enc_subscription_list(vs.drop_last()), enc_subscription(vs.last())));
        lemma_enc_subscription_list_cons(v, vs.drop_last());
        lemma_cat_assoc(enc_subscription(v), enc_subscription_list(vs.drop_last()), enc_subscription(vs.last()));
    }
}

/// Subscriptions written one after another read back as the same list.
proof fn lemma_subscription_list_roundtrip(vs: Seq<SubscriptionV>)
    requires
        enc_subscription_list(vs) is Some,
    ensures
        sp_subscription_list(enc_subscription_list(vs)->0) == Some(vs),
    decreases vs.len(),
{
    if vs.len() > 0 {
        let rest = vs.skip(1);
        assert(vs =~= seq![vs[0]] + rest);
        lemma_enc_subscription_list_cons(vs[0], rest);
        let a = enc_subscription(vs[0])->0;
        let b = enc_subscription_list(rest)->0;
        lemma_subscription_roundtrip(vs[0], b);
        lemma_subscription_list_roundtrip(rest);
        assert((a + b).skip(a.len() as int) =~= b);
    }
}

/// The encoding of strings, taken from the front.
proof fn lemma_enc_string_list_cons(v: Seq<char>, vs: Seq<Seq<char>>)
    ensures
        enc_string_list(seq![v] + vs) == cat(enc_string(v), enc_string_list(vs)),
    decreases vs.len(),
{
    let q = seq![v] + vs;
    if vs.len() == 0 {
        assert(q.drop_last() =~= Seq::<Seq<char>>::empty());
        assert(q.last() == v);
        assert(enc_string_list(q.drop_last()) == Some(Seq::<u8>::empty()));
        assert(enc_string_list(q) == cat(enc_string_list(q.drop_last()), enc_string(q.last())));
        lemma_cat_empty(enc_string(v));
    } else {
        assert(q.drop_last() =~= seq![v] + vs.drop_last());
        assert(q.last() == vs.last());
        assert(enc_string_list(q) == cat(enc_string_list(q.drop_last()), enc_string(q.last())));
        assert(enc_string_list(vs) == cat(enc_string_list(vs.drop_last()), enc_string(vs.last())));
        lemma_enc_string_list_cons(v, vs.drop_last());
        lemma_cat_assoc(enc_string(v), enc_string_list(vs.drop_last()), enc_string(vs.last()));
    }
}

/// Strings written one after another read back as the same list.
proof fn lemma_string_list_roundtrip(vs: Seq<Seq<char>>)
    requires
        enc_string_list(vs) is Some,
    ensures
        sp_string_list(enc_string_list(vs)->0) == Some(vs),
    decreases vs.len(),
{
    if vs.len() > 0 {
        let rest = vs.skip(1);
        assert(vs =~= seq![vs[0]] + rest);
        lemma_enc_string_list_cons(vs[0], rest);
        let a = enc_string(vs[0])->0;
        let b = enc_string_list(rest)->0;
        lemma_string_roundtrip(vs[0], b);
        lemma_string_list_roundtrip(rest);
        assert((a + b).skip(a.len() as int) =~= b);
    }
}

/// A SUBSCRIBE body written by the encoder reads back as the same packet.
pub proof fn lemma_subscribe_roundtrip(p: SubscribeV)
    requires
        enc_subscribe(p) is Some,
        enc_subscribe(p)->0.len() <= u32::MAX,
    ensures
        sp_subscribe(enc_subscribe(p)->0) == Some((p, enc_subscribe(p)->0.len() as int)),
{
    let b = enc_subscribe(p)->0;
    let e = enc_properties(p.properties)->0;
    let l = enc_subscription_list(p.subscriptions)->0;
    assert(b =~= enc_u16(p.packet_id) + (e + l));
    lemma_packet_id_roundtrip(p.packet_id, e + l);
    lemma_properties_then(p.properties, l);
    assert(b.skip(2 + e.len() as int) =~= l);
    lemma_subscription_list_roundtrip(p.subscriptions);
}

/// An UNSUBSCRIBE body written by the encoder reads back as the same packet.
pub proof fn lemma_unsubscribe_roundtrip(p: UnsubscribeV)
    requires
        enc_unsubscribe(p) is Some,
        enc_unsubscribe(p)->0.len() <= u32::MAX,
    ensures
        sp_unsubscribe(enc_unsubscribe(p)->0) == Some((p, enc_unsubscribe(p)->0.len() as int)),
{
    let b = enc_unsubscribe(p)->0;
    let e = enc_properties(p.properties)->0;
    let l = enc_string_list(p.topic_filters)->0;
    assert(b =~= enc_u16(p.packet_id) + (e + l));
    lemma_packet_id_roundtrip(p.packet_id, e + l);
    lemma_properties_then(p.properties, l);
    assert(b.skip(2 + e.len() as int) =~= l);
    lemma_string_list_roundtrip(p.topic_filters);
}


/// The bits of the PUBLISH fixed-header flags.
proof fn lemma_publish_flag_bits(q: u8, d: u8, r: u8)
    by (bit_vector)
    requires
        q <= 2,
        d <= 1,
        r <= 1,
    ensures
        ((((q << 1) | (d << 3)) | r) >> 1) & 0x03 == q,
        ((((q << 1) | (d << 3)) | r) & 0x08 != 0) == (d == 1),
        ((((q << 1) | (d << 3)) | r) & 0x01 != 0) == (r == 1),
        (((q << 1) | (d << 3)) | r) < 16,
{
}

/// A PUBLISH body written by the encoder reads back, with the flags the
/// encoder gives the fixed header, as the same packet.
pub proof fn lemma_publish_roundtrip(p: PublishV)
    requires
        enc_publish(p) matches Some((_, b)) && b.len() <= u32::MAX,
    ensures
        enc_publish(p) matches Some((f, b)) && sp_publish(f, b) == Some((p, b.len() as int)) && f < 16,
{
    let (flags, b) = enc_publish(p)->0;
    lemma_qos_bits(p.qos);
    lemma_flag_bit(p.dup);
    lemma_flag_bit(p.retain);
    lemma_publish_flag_bits(qos_bits(p.qos), flag_bit(p.dup), flag_bit(p.retain));
    let et = enc_string(p.topic_name)->0;
    let id = match p.packet_id {
        Some(id) => enc_u16(id),
        None => Seq::<u8>::empty(),
    };
    let e = enc_properties(p.properties)->0;
    let pl = p.payload;
    assert(b =~= et + (id + (e + pl)));
    lemma_string_roundtrip(p.topic_name, id + (e + pl));
    assert(b.skip(et.len() as int) =~= id + (e + pl));
    if let Some(n) = p.packet_id {
        lemma_packet_id_roundtrip(n, e + pl);
    } else {
        assert(id + (e + pl) =~= e + pl);
    }
    assert(b.skip((et.len() + id.len()) as int) =~= e + pl);
    lemma_properties_then(p.properties, pl);
    assert(b.skip((et.len() + id.len() + e.len()) as int) =~= pl);
}

/// The bits of the CONNECT flags with a will.
proof fn lemma_connect_flag_bits_will(un: u8, pw: u8, q: u8, wr: u8, cs: u8)
    by (bit_vector)
    requires
        un <= 1,
        pw <= 1,
        q <= 2,
        wr <= 1,
        cs <= 1,
    ensures
        ({
            let f = (((un << 7) | (pw << 6)) | ((0x04u8 | (q << 3)) | (wr << 5))) | (cs << 1);
            &&& f & 0x01 == 0
            &&& (f >> 3) & 0x03 == q
            &&& (f & 0x80 != 0) == (un == 1)
            &&& (f & 0x40 != 0) == (pw == 1)
            &&& (f & 0x20 != 0) == (wr == 1)
            &&& f & 0x04 != 0
            &&& (f & 0x02 != 0) == (cs == 1)
        }),
{
}

/// The bits of the CONNECT flags without a will.
proof fn lemma_connect_flag_bits_no_will(un: u8, pw: u8, cs: u8)
    by (bit_vector)
    requires
        un <= 1,
        pw <= 1,
        cs <= 1,
    ensures
        ({
            let f = (((un << 7) | (pw << 6)) | 0u8) | (cs << 1);
            &&& f & 0x01 == 0
            &&& (f >> 3) & 0x03 == 0
            &&& (f & 0x80 != 0) == (un == 1)
            &&& (f & 0x40 != 0) == (pw == 1)
            &&& f & 0x20 == 0
            &&& f & 0x04 == 0
            &&& (f & 0x02 != 0) == (cs == 1)
        }),
{
}

/// What the CONNECT flags of a packet say, bit by bit; `q` is the will's
/// QoS, or QoS 0 without a will.
pub open spec fn connect_flags_say(flags: u8, p: ConnectV, q: QoS) -> bool {
    &&& flags & 0x01 == 0
    &&& qos_of((flags >> 3) & 0x03) == Some(q)
    &&& (flags & 0x80 != 0) == (p.username is Some)
    &&& (flags & 0x40 != 0) == (p.password is Some)
    &&& (flags & 0x04 != 0) == (p.will is Some)
    &&& (flags & 0x02 != 0) == p.clean_start
    &&& match p.will {
        Some(w) => q == w.qos && (flags & 0x20 != 0) == w.retain,
        None => q == QoS::AtMostOnce && flags & 0x20 == 0,
    }
}

/// The CONNECT flags byte says what the packet holds.
proof fn lemma_connect_flags(p: ConnectV)
    ensures
        connect_flags_say(enc_connect_flags(p), p, match p.will {
            Some(w) => w.qos,
            None => QoS::AtMostOnce,
        }),
{
    lemma_flag_bit(p.username is Some);
    lemma_flag_bit(p.password is Some);
    lemma_flag_bit(p.clean_start);
    let un = flag_bit(p.username is Some);
    let pw = flag_bit(p.password is Some);
    let cs = flag_bit(p.clean_start);
    match p.will {
        Some(w) => {
            lemma_flag_bit(w.retain);
            lemma_qos_bits(w.qos);
            lemma_connect_flag_bits_will(un, pw, qos_bits(w.qos), flag_bit(w.retain), cs);
        },
        None => {
            lemma_connect_flag_bits_no_will(un, pw, cs);
        },
    }
}

/// A will written by the encoder reads back as the same will.
proof fn lemma_will_roundtrip(flags: u8, p: ConnectV, q: QoS, t: Seq<u8>)
    requires
        connect_flags_say(flags, p, q),
        enc_will(p.will) is Some,
        enc_will(p.will)->0.len() <= u32::MAX,
    ensures
        sp_will(flags, q, enc_will(p.will)->0 + t) == Some((p.will, enc_will(p.will)->0.len() as int)),
{
    if let Some(w) = p.will {
        let e = enc_properties(w.properties)->0;
        let et = enc_string(w.topic)->0;
        let eb = enc_binary(w.payload)->0;
        let s = enc_will(p.will)->0 + t;
        assert(s =~= e + (et + (eb + t)));
        lemma_properties_then(w.properties, et + (eb + t));
        lemma_string_roundtrip(w.topic, eb + t);
        assert(s.skip(e.len() as int) =~= et + (eb + t));
        assert(s.skip((e.len() + et.len()) as int) =~= eb + t);
        lemma_binary_roundtrip(w.payload, t);
    } else {
        assert(enc_will(p.will)->0 + t =~= t);
    }
}

/// An optional string written by the encoder reads back as the same value.
proof fn lemma_opt_string_roundtrip(v: Option<Seq<char>>, t: Seq<u8>)
    requires
        enc_opt_string(v) is Some,
    ensures
        sp_opt_string(v is Some, enc_opt_string(v)->0 + t) == Some((v, enc_opt_string(v)->0.len() as int)),
{
    if let Some(c) = v {
        lemma_string_roundtrip(c, t);
    }
}

/// Optional binary data written by the encoder reads back as the same value.
proof fn lemma_opt_binary_roundtrip(v: Option<Seq<u8>>, t: Seq<u8>)
    requires
        enc_opt_binary(v) is Some,
    ensures
        sp_opt_binary(v is Some, enc_opt_binary(v)->0 + t) == Some((v, enc_opt_binary(v)->0.len() as int)),
{
    if let Some(b) = v {
        lemma_binary_roundtrip(b, t);
    }
}


/// The part of a CONNECT body after the flags, written by the encoder,
/// reads back as the same packet.
#[verifier::spinoff_prover]
#[verifier::rlimit(100)]
proof fn lemma_connect_payload_roundtrip(flags: u8, p: ConnectV, q: QoS)
    requires
        connect_flags_say(flags, p, q),
        enc_connect_payload(p) is Some,
        enc_connect_payload(p)->0.len() <= u32::MAX,
    ensures
        sp_connect_payload(flags, enc_u16(p.keep_alive) + enc_connect_payload(p)->0) == Some(
            (p, 2 + enc_connect_payload(p)->0.len() as int),
        ),
{
    let a = enc_u16(p.keep_alive);
    let ep = enc_properties(p.properties)->0;
    let ec = enc_string(p.client_id)->0;
    let ew = enc_will(p.will)->0;
    let eu = enc_opt_string(p.username)->0;
    let epw = enc_opt_binary(p.password)->0;
    let s = a + enc_connect_payload(p)->0;
    assert(s =~= a + (ep + (ec + (ew + (eu + epw)))));
    let k2 = ep.len() as int;
    let k3 = ec.len() as int;
    let k4 = ew.len() as int;
    let k5 = eu.len() as int;
    let k6 = epw.len() as int;
    let o3 = 2 + k2 + k3;
    assert(sp_u16(s) == Some((p.keep_alive, 2int))) by {
        lemma_u16_roundtrip(p.keep_alive, ep + (ec + (ew + (eu + epw))));
    }
    assert(sp_properties(s.skip(2)) == Some((p.properties, k2))) by {
        assert(s.skip(2) =~= ep + (ec + (ew + (eu + epw))));
        lemma_properties_then(p.properties, ec + (ew + (eu + epw)));
    }
    assert(sp_string(s.skip(2 + k2)) == Some((p.client_id, k3))) by {
        assert(s.skip(2 + k2) =~= ec + (ew + (eu + epw)));
        lemma_string_roundtrip(p.client_id, ew + (eu + epw));
    }
    assert(sp_will(flags, q, s.skip(o3)) == Some((p.will, k4))) by {
        assert(s.skip(o3) =~= ew + (eu + epw));
        lemma_will_roundtrip(flags, p, q, eu + epw);
    }
    assert(sp_opt_string(flags & 0x80 != 0, s.skip(o3 + k4)) == Some((p.username, k5))) by {
        assert(s.skip(o3 + k4) =~= eu + epw);
        lemma_opt_string_roundtrip(p.username, epw);
    }
    assert(sp_opt_binary(flags & 0x40 != 0, s.skip(o3 + k4 + k5)) == Some((p.password, k6))) by {
        assert(s.skip(o3 + k4 + k5) =~= epw + Seq::<u8>::empty());
        lemma_opt_binary_roundtrip(p.password, Seq::empty());
    }
    lemma_connect_payload_steps(flags, s, p, q, k2, k3, k4, k5, k6);
}

/// Reading the part of a CONNECT body after the flags, one field at a time.
proof fn lemma_connect_payload_steps(
    flags: u8,
    s: Seq<u8>,
    p: ConnectV,
    q: QoS,
    k2: int,
    k3: int,
    k4: int,
    k5: int,
    k6: int,
)
    requires
        connect_flags_say(flags, p, q),
        sp_u16(s) == Some((p.keep_alive, 2int)),
        sp_properties(s.skip(2)) == Some((p.properties, k2)),
        sp_string(s.skip(2 + k2)) == Some((p.client_id, k3)),
        sp_will(flags, q, s.skip(2 + k2 + k3)) == Some((p.will, k4)),
        sp_opt_string(flags & 0x80 != 0, s.skip(2 + k2 + k3 + k4)) == Some((p.username, k5)),
        sp_opt_binary(flags & 0x40 != 0, s.skip(2 + k2 + k3 + k4 + k5)) == Some((p.password, k6)),
    ensures
        sp_connect_payload(flags, s) == Some((p, 2 + k2 + k3 + k4 + k5 + k6)),
{
    reveal(sp_connect_payload);
}

/// A CONNECT body written by the encoder reads back as the same packet.
#[verifier::rlimit(40)]
pub proof fn lemma_connect_roundtrip(p: ConnectV)
    requires
        enc_connect(p) is Some,
        enc_connect(p)->0.len() <= u32::MAX,
    ensures
        sp_connect(enc_connect(p)->0) == Some((p, enc_connect(p)->0.len() as int)),
{
    let b = enc_connect(p)->0;
    let flags = enc_connect_flags(p);
    let q = match p.will {
        Some(w) => w.qos,
        None => QoS::AtMostOnce,
    };
    lemma_connect_flags(p);
    let en = enc_string(mqtt_name())->0;
    let a = enc_u16(p.keep_alive);
    let pl = enc_connect_payload(p)->0;
    assert(b =~= en + (seq![5u8, flags] + a + pl));
    lemma_string_roundtrip(mqtt_name(), seq![5u8, flags] + a + pl);
    let k1 = en.len() as int;
    assert(b.skip(k1) =~= seq![5u8, flags] + a + pl);
    assert(b.skip(k1 + 1) =~= seq![flags] + (a + pl));
    assert(b.skip(k1 + 2) =~= a + pl);
    assert(sp_connect_flags(flags) == Some(q));
    lemma_connect_payload_roundtrip(flags, p, q);
}


/// The type and flags of a fixed header byte read back from it.
proof fn lemma_header_bits(t: u8, f: u8)
    by (bit_vector)
    requires
        t < 16,
        f < 16,
    ensures
        ((t << 4) | f) >> 4 == t,
        ((t << 4) | f) & 0x0f == f,
{
}

/// A packet body written by the encoder reads back, under the packet type
/// and flags the encoder gives it, as the same packet.
#[verifier::spinoff_prover]
#[verifier::rlimit(100)]
pub proof fn lemma_packet_roundtrip(p: PacketV)
    requires
        enc_packet(p) matches Some((_, _, b)) && b.len() <= u32::MAX,
    ensures
        enc_packet(p) matches Some((t, f, b)) && sp_packet(t, f, b) == Some((p, b.len() as int)) && 1 <= t <= 15
            && f < 16,
{
    reveal(enc_packet);
    let (t, f, b) = enc_packet(p)->0;
    match p {
        PacketV::Connect(v) => {
            assert(sp_packet(1, 0, b) == Some((p, b.len() as int))) by {
                reveal(sp_packet);
                lemma_connect_roundtrip(v);
            }
        },
        PacketV::ConnAck(v) => {
            assert(sp_packet(2, 0, b) == Some((p, b.len() as int))) by {
                reveal(sp_packet);
                lemma_connack_roundtrip(v);
            }
        },
        PacketV::PubAck(v) => {
            assert(sp_packet(4, 0, b) == Some((p, b.len() as int))) by {
                reveal(sp_packet);
                lemma_ack_roundtrip(v);
            }
        },
        PacketV::PubRec(v) => {
            assert(sp_packet(5, 0, b) == Some((p, b.len() as int))) by {
                reveal(sp_packet);
                lemma_ack_roundtrip(v);
            }
        },
        PacketV::PubRel(v) => {
            assert(sp_packet(6, 2, b) == Some((p, b.len() as int))) by {
                reveal(sp_packet);
                lemma_ack_roundtrip(v);
            }
        },
        PacketV::PubComp(v) => {
            assert(sp_packet(7, 0, b) == Some((p, b.len() as int))) by {
                reveal(sp_packet);
                lemma_ack_roundtrip(v);
            }
        },
        PacketV::Subscribe(v) => {
            assert(sp_packet(8, 2, b) == Some((p, b.len() as int))) by {
                reveal(sp_packet);
                lemma_subscribe_roundtrip(v);
            }
        },
        PacketV::SubAck(v) => {
            assert(sp_packet(9, 0, b) == Some((p, b.len() as int))) by {
                reveal(sp_packet);
                lemma_codes_roundtrip(v);
            }
        },
        PacketV::Unsubscribe(v) => {
            assert(sp_packet(10, 2, b) == Some((p, b.len() as int))) by {
                reveal(sp_packet);
                lemma_unsubscribe_roundtrip(v);
            }
        },
        PacketV::UnsubAck(v) => {
            assert(sp_packet(11, 0, b) == Some((p, b.len() as int))) by {
                reveal(sp_packet);
                lemma_codes_roundtrip(v);
            }
        },
        PacketV::Disconnect(v) => {
            assert(sp_packet(14, 0, b) == Some((p, b.len() as int))) by {
                reveal(sp_packet);
                lemma_reason_roundtrip(v);
            }
        },
        PacketV::Auth(v) => {
            assert(sp_packet(15, 0, b) == Some((p, b.len() as int))) by {
                reveal(sp_packet);
                lemma_reason_roundtrip(v);
            }
        },
        PacketV::Publish(v) => {
            lemma_publish_roundtrip(v);
            assert(sp_packet(3, f, b) == Some((p, b.len() as int))) by {
                reveal(sp_packet);
            }
        },
        PacketV::PingReq => {
            assert(sp_packet(12, 0, b) == Some((p, 0int))) by {
                reveal(sp_packet);
            }
        },
        PacketV::PingResp => {
            assert(sp_packet(13, 0, b) == Some((p, 0int))) by {
                reveal(sp_packet);
            }
        },
    }
}

/// The frame the MQTT codec writes for a packet is read back by the codec,
/// followed by any bytes, as exactly that packet, consuming exactly the
/// frame. The body length must fit the `u32` the encoder computes.
pub proof fn lemma_mqtt_roundtrip(max: int, p: PacketV, rest: Seq<u8>)
    requires
        mqtt_write(max, p) is Frame,
        enc_packet(p) matches Some((_, _, b)) && b.len() <= u32::MAX,
    ensures
        mqtt_write(max, p) matches MqttWrite::Frame { bytes } && mqtt_step(max, bytes + rest) == (MqttStep::Packet {
            len: bytes.len() as int,
            packet: p,
        }),
{
    lemma_packet_roundtrip(p);
    let (t, f, body) = enc_packet(p)->0;
    let header = (t << 4) | f;
    lemma_header_bits(t, f);
    let n = body.len();
    assert((n as u32) as nat == n);
    let len = varint_encoding(n);
    let bytes = seq![header] + len + body;
    assert(mqtt_write(max, p) == (MqttWrite::Frame { bytes }));
    let s = bytes + rest;
    let r = s.skip(1);
    assert(r =~= len + (body + rest));
    lemma_varint_roundtrip(n, body + rest);
    assert(s[0] == header);
    assert(s.subrange(1 + len.len() as int, 1 + len.len() + n as int) =~= body);
}

} // verus!
