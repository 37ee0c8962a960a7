use bytes::{Bytes, BytesMut};
use rs_netty::codec::mqtt::{
    ConnectPacket, MqttCodec, MqttPacket, MqttProperty, PublishPacket, QoS, SubscribePacket, Subscription,
    SubscriptionOptions,
};
use rs_netty::codec::{Decoder, Encoder};
use rs_netty::Error;

#[test]
fn decodes_connect_v5() {
    let mut codec = MqttCodec::new();
    let mut buf = BytesMut::from(
        &[
            0x10, 0x12, 0x00, 0x04, b'M', b'Q', b'T', b'T', 0x05, 0x02, 0x00, 0x3c, 0x00, 0x00,
            0x05, b'a', b'l', b'i', b'c', b'e',
        ][..],
    );

    let packet = codec.decode(&mut buf).expect("decode").expect("packet");
    assert_eq!(
        packet,
        MqttPacket::Connect(ConnectPacket {
            clean_start: true,
            keep_alive: 60,
            properties: Vec::new(),
            client_id: "alice".to_string(),
            will: None,
            username: None,
            password: None,
        })
    );
}

#[test]
fn roundtrips_publish_with_properties() {
    let mut codec = MqttCodec::new();
    let packet = MqttPacket::Publish(PublishPacket {
        dup: false,
        qos: QoS::AtLeastOnce,
        retain: false,
        topic_name: "sensors/temp".to_string(),
        packet_id: Some(7),
        properties: vec![
            MqttProperty::PayloadFormatIndicator(1),
            MqttProperty::ContentType("text/plain".to_string()),
            MqttProperty::UserProperty("source".to_string(), "lab".to_string()),
        ],
        payload: Bytes::from_static(b"21.5"),
    });

    let mut buf = BytesMut::new();
    codec.encode(packet.clone(), &mut buf).expect("encode");
    assert_eq!(codec.decode(&mut buf).expect("decode"), Some(packet));
}

#[test]
fn waits_for_complete_remaining_length() {
    let mut codec = MqttCodec::new();
    let mut buf = BytesMut::from(&[0x30, 0x80][..]);
    assert!(codec.decode(&mut buf).expect("decode").is_none());
}

#[test]
fn round_trips_subscribe() {
    let mut codec = MqttCodec::new();
    let packet = MqttPacket::Subscribe(SubscribePacket {
        packet_id: 10,
        properties: vec![MqttProperty::SubscriptionIdentifier(42)],
        subscriptions: vec![Subscription {
            topic_filter: "devices/+/status".to_string(),
            options: SubscriptionOptions {
                maximum_qos: QoS::AtLeastOnce,
                no_local: true,
                retain_as_published: false,
                retain_handling: 1,
            },
        }],
    });

    let mut buf = BytesMut::new();
    codec.encode(packet.clone(), &mut buf).expect("encode");
    assert_eq!(codec.decode(&mut buf).expect("decode"), Some(packet));
}

#[test]
fn rejects_non_minimal_remaining_length() {
    let mut codec = MqttCodec::new();
    let mut buf = BytesMut::from(&[0x30, 0x80, 0x00][..]);

    assert!(matches!(codec.decode(&mut buf), Err(Error::Decode(_))));
}

#[test]
fn rejects_zero_packet_identifier() {
    let mut codec = MqttCodec::new();
    let mut buf = BytesMut::from(&[0x40, 0x02, 0x00, 0x00][..]);

    assert!(matches!(codec.decode(&mut buf), Err(Error::Decode(_))));
}

#[test]
fn rejects_invalid_subscribe_options() {
    let mut codec = MqttCodec::new();
    let mut buf = BytesMut::from(&[0x82, 0x07, 0x00, 0x01, 0x00, 0x00, 0x01, b'a', 0x30][..]);

    assert!(matches!(codec.decode(&mut buf), Err(Error::Decode(_))));
}

#[test]
fn rejects_password_without_username() {
    let mut codec = MqttCodec::new();
    let mut buf = BytesMut::new();

    assert!(matches!(
        codec.encode(
            MqttPacket::Connect(ConnectPacket {
                clean_start: true,
                keep_alive: 60,
                properties: Vec::new(),
                client_id: "client".to_string(),
                will: None,
                username: None,
                password: Some(Bytes::from_static(b"secret")),
            }),
            &mut buf,
        ),
        Err(Error::Encode(_))
    ));
}

#[test]
fn rejects_empty_suback_reason_codes() {
    let mut codec = MqttCodec::new();
    let mut buf = BytesMut::from(&[0x90, 0x03, 0x00, 0x01, 0x00][..]);

    assert!(matches!(codec.decode(&mut buf), Err(Error::Decode(_))));
}
