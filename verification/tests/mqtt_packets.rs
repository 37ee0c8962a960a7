use bytes::{Bytes, BytesMut};
use rs_netty::codec::mqtt::{
    AckPacket, AuthPacket, ConnAckPacket, ConnectPacket, DisconnectPacket, MqttCodec, MqttPacket, MqttProperty,
    PublishPacket, QoS, SubAckPacket, UnsubAckPacket, UnsubscribePacket, Will,
};
use rs_netty::codec::{Decoder, Encoder};
use rs_netty::Error;

fn round_trip(packet: MqttPacket) -> Vec<u8> {
    let mut codec = MqttCodec::new();
    let mut buf = BytesMut::new();
    codec.encode(packet.clone(), &mut buf).expect("encode");
    let frame = buf.to_vec();
    buf.extend_from_slice(&[0xc0, 0x00]);
    assert_eq!(codec.decode(&mut buf).expect("decode"), Some(packet));
    assert_eq!(codec.decode(&mut buf).expect("decode"), Some(MqttPacket::PingReq));
    assert!(buf.is_empty());
    frame
}

#[test]
fn connect_with_will_and_credentials_reads_back() {
    round_trip(MqttPacket::Connect(ConnectPacket {
        clean_start: false,
        keep_alive: 30,
        properties: vec![
            MqttProperty::SessionExpiryInterval(3600),
            MqttProperty::ReceiveMaximum(20),
            MqttProperty::AuthenticationMethod("token".to_string()),
            MqttProperty::AuthenticationData(Bytes::from_static(b"\x01\x02")),
        ],
        client_id: "device-1".to_string(),
        will: Some(Will {
            qos: QoS::ExactlyOnce,
            retain: true,
            properties: vec![
                MqttProperty::WillDelayInterval(5),
                MqttProperty::MessageExpiryInterval(60),
                MqttProperty::CorrelationData(Bytes::from_static(b"id")),
            ],
            topic: "devices/1/gone".to_string(),
            payload: Bytes::from_static(b"bye"),
        }),
        username: Some("alice".to_string()),
        password: Some(Bytes::from_static(b"secret")),
    }));
}

#[test]
fn connect_without_will_has_exact_bytes() {
    let frame = round_trip(MqttPacket::Connect(ConnectPacket {
        clean_start: true,
        keep_alive: 60,
        properties: Vec::new(),
        client_id: "alice".to_string(),
        will: None,
        username: None,
        password: None,
    }));
    assert_eq!(
        frame,
        vec![
            0x10, 0x12, 0x00, 0x04, b'M', b'Q', b'T', b'T', 0x05, 0x02, 0x00, 0x3c, 0x00, 0x00, 0x05, b'a',
            b'l', b'i', b'c', b'e',
        ]
    );
}

#[test]
fn acknowledgements_read_back() {
    let frame = round_trip(MqttPacket::PubAck(AckPacket::new(5, 0)));
    assert_eq!(frame, vec![0x40, 0x02, 0x00, 0x05]);
    let frame = round_trip(MqttPacket::PubRec(AckPacket::new(6, 0x10)));
    assert_eq!(frame, vec![0x50, 0x03, 0x00, 0x06, 0x10]);
    let frame = round_trip(MqttPacket::PubRel(AckPacket::new(7, 0)));
    assert_eq!(frame, vec![0x62, 0x02, 0x00, 0x07]);
    round_trip(MqttPacket::PubComp(AckPacket {
        packet_id: 8,
        reason_code: 0,
        properties: vec![MqttProperty::ReasonString("done".to_string())],
    }));
    round_trip(MqttPacket::ConnAck(ConnAckPacket {
        session_present: true,
        reason_code: 0,
        properties: vec![
            MqttProperty::MaximumQoS(1),
            MqttProperty::RetainAvailable(0),
            MqttProperty::MaximumPacketSize(4096),
            MqttProperty::AssignedClientIdentifier("auto-1".to_string()),
            MqttProperty::TopicAliasMaximum(10),
            MqttProperty::WildcardSubscriptionAvailable(1),
            MqttProperty::SubscriptionIdentifierAvailable(1),
            MqttProperty::SharedSubscriptionAvailable(0),
            MqttProperty::ServerKeepAlive(120),
            MqttProperty::ResponseInformation("resp".to_string()),
            MqttProperty::ServerReference("other".to_string()),
        ],
    }));
}

#[test]
fn subscription_acknowledgements_and_unsubscribe_read_back() {
    round_trip(MqttPacket::SubAck(SubAckPacket {
        packet_id: 3,
        properties: Vec::new(),
        reason_codes: vec![0x00, 0x01, 0x80],
    }));
    round_trip(MqttPacket::Unsubscribe(UnsubscribePacket {
        packet_id: 4,
        properties: vec![MqttProperty::UserProperty("k".to_string(), "v".to_string())],
        topic_filters: vec!["a/b".to_string(), "c/#".to_string()],
    }));
    round_trip(MqttPacket::UnsubAck(UnsubAckPacket {
        packet_id: 4,
        properties: Vec::new(),
        reason_codes: vec![0x11],
    }));
}

#[test]
fn ping_disconnect_and_auth_read_back() {
    assert_eq!(round_trip(MqttPacket::PingResp), vec![0xd0, 0x00]);
    let frame = round_trip(MqttPacket::Disconnect(DisconnectPacket {
        reason_code: 0,
        properties: Vec::new(),
    }));
    assert_eq!(frame, vec![0xe0, 0x00]);
    let frame = round_trip(MqttPacket::Disconnect(DisconnectPacket {
        reason_code: 0x8e,
        properties: Vec::new(),
    }));
    assert_eq!(frame, vec![0xe0, 0x01, 0x8e]);
    round_trip(MqttPacket::Auth(AuthPacket {
        reason_code: 0x18,
        properties: vec![
            MqttProperty::AuthenticationMethod("scram".to_string()),
            MqttProperty::RequestProblemInformation(1),
            MqttProperty::RequestResponseInformation(0),
        ],
    }));
}

#[test]
fn publish_at_qos_zero_carries_no_identifier() {
    let frame = round_trip(MqttPacket::Publish(PublishPacket {
        dup: false,
        qos: QoS::AtMostOnce,
        retain: true,
        topic_name: "t".to_string(),
        packet_id: None,
        properties: vec![
            MqttProperty::TopicAlias(2),
            MqttProperty::ResponseTopic("r".to_string()),
            MqttProperty::SubscriptionIdentifier(300),
        ],
        payload: Bytes::from_static(b"x"),
    }));
    assert_eq!(frame[0], 0x31);
}

#[test]
fn publish_identifier_must_match_qos() {
    let mut codec = MqttCodec::new();
    let mut buf = BytesMut::new();
    let packet = MqttPacket::Publish(PublishPacket {
        dup: false,
        qos: QoS::AtLeastOnce,
        retain: false,
        topic_name: "t".to_string(),
        packet_id: None,
        properties: Vec::new(),
        payload: Bytes::new(),
    });
    assert!(matches!(codec.encode(packet, &mut buf), Err(Error::Encode(_))));
    assert!(buf.is_empty());
}

#[test]
fn packet_size_limit_applies_both_ways() {
    let mut codec = MqttCodec::with_max_packet_size(3);
    let mut buf = BytesMut::from(&[0x30, 0x04, 0x00, 0x01, b't', b'x'][..]);
    assert!(matches!(
        codec.decode(&mut buf),
        Err(Error::FrameTooLarge { current: 4, max: 3 })
    ));
    let mut out = BytesMut::new();
    let packet = MqttPacket::Disconnect(DisconnectPacket {
        reason_code: 0x04,
        properties: vec![MqttProperty::ReasonString("bye".to_string())],
    });
    assert!(matches!(codec.encode(packet, &mut out), Err(Error::FrameTooLarge { max: 3, .. })));
}

#[test]
fn refuses_unknown_packet_type_and_bad_flags() {
    let mut codec = MqttCodec::new();
    let mut buf = BytesMut::from(&[0x00, 0x00][..]);
    assert!(matches!(codec.decode(&mut buf), Err(Error::Decode(_))));
    let mut buf = BytesMut::from(&[0x61, 0x02, 0x00, 0x01][..]);
    assert!(matches!(codec.decode(&mut buf), Err(Error::Decode(_))));
    let mut buf = BytesMut::from(&[0xc0, 0x01, 0x00][..]);
    assert!(matches!(codec.decode(&mut buf), Err(Error::Decode(_))));
}

#[test]
fn refuses_unknown_property() {
    let mut codec = MqttCodec::new();
    let mut buf = BytesMut::from(&[0xe0, 0x03, 0x00, 0x01, 0x7f][..]);
    assert!(matches!(codec.decode(&mut buf), Err(Error::Decode(_))));
}

#[test]
fn refuses_malformed_remaining_length() {
    let mut codec = MqttCodec::new();
    let mut buf = BytesMut::from(&[0x30, 0xff, 0xff, 0xff, 0xff, 0x01][..]);
    assert!(matches!(codec.decode(&mut buf), Err(Error::Decode(_))));
}
