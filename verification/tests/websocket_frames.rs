use bytes::{Bytes, BytesMut};
use rs_netty::codec::websocket::WebSocketState;
use rs_netty::codec::websocket::handshake::{validate_client_key, websocket_accept_key};
use rs_netty::codec::{
    Decoder, Encoder, WebSocketClose, WebSocketCodec, WebSocketInbound, WebSocketMessage, WebSocketOutbound,
};
use rs_netty::Error;

fn frames_codec() -> WebSocketCodec {
    let mut codec = WebSocketCodec::server().require_masked_client_frames(false);
    codec.state = WebSocketState::Frames;
    codec
}

#[test]
fn accept_key_matches_the_protocol_example() {
    assert_eq!(websocket_accept_key("dGhlIHNhbXBsZSBub25jZQ=="), "s3pPLMBiTxaQ9kYGzzhZRbK+xOo=");
    assert_ne!(websocket_accept_key("AQIDBAUGBwgJCgsMDQ4PEA=="), "s3pPLMBiTxaQ9kYGzzhZRbK+xOo=");
}

#[test]
fn client_key_must_be_sixteen_base64_bytes() {
    assert!(validate_client_key("dGhlIHNhbXBsZSBub25jZQ==").is_ok());
    assert!(matches!(validate_client_key("c2hvcnQ="), Err(Error::Decode(_))));
    assert!(matches!(validate_client_key("***"), Err(Error::Decode(_))));
}

#[test]
fn messages_written_by_the_codec_read_back() {
    let messages = vec![
        WebSocketMessage::Text("héllo".to_string()),
        WebSocketMessage::Binary(Bytes::from(vec![7u8; 300])),
        WebSocketMessage::Binary(Bytes::from(vec![1u8; 70_000])),
        WebSocketMessage::Ping(Bytes::from_static(b"p")),
        WebSocketMessage::Pong(Bytes::new()),
        WebSocketMessage::Close(Some(WebSocketClose { code: 1000, reason: "bye".to_string() })),
        WebSocketMessage::Close(None),
    ];
    for message in messages {
        let mut codec = frames_codec();
        let mut buf = BytesMut::new();
        codec.encode(message.clone(), &mut buf).expect("encode");
        let expected = match message {
            WebSocketMessage::Text(t) => WebSocketInbound::Text(t),
            WebSocketMessage::Binary(b) => WebSocketInbound::Binary(b),
            WebSocketMessage::Ping(b) => WebSocketInbound::Ping(b),
            WebSocketMessage::Pong(b) => WebSocketInbound::Pong(b),
            WebSocketMessage::Close(c) => WebSocketInbound::Close(c),
        };
        assert_eq!(codec.decode(&mut buf).expect("decode"), Some(expected));
        assert!(buf.is_empty());
    }
}

#[test]
fn text_frame_has_exact_bytes() {
    let mut codec = frames_codec();
    let mut buf = BytesMut::new();
    codec.encode(WebSocketOutbound::Text("hi".to_string()), &mut buf).expect("encode");
    assert_eq!(&buf[..], &[0x81, 0x02, b'h', b'i']);
    let mut buf = BytesMut::new();
    codec.encode(WebSocketOutbound::Binary(Bytes::from(vec![0u8; 126])), &mut buf).expect("encode");
    assert_eq!(&buf[..4], &[0x82, 126, 0, 126]);
    assert_eq!(buf.len(), 4 + 126);
}

#[test]
fn control_frames_are_limited() {
    let mut codec = frames_codec();
    let mut buf = BytesMut::new();
    assert!(matches!(
        codec.encode(WebSocketOutbound::Ping(Bytes::from(vec![0u8; 126])), &mut buf),
        Err(Error::Encode(_))
    ));
    let mut buf = BytesMut::from(&[0x89, 0x7e, 0x00, 0x7e][..]);
    assert_eq!(codec.decode(&mut buf).expect("partial"), None);
    buf.extend_from_slice(&[0u8; 126]);
    assert!(matches!(codec.decode(&mut buf), Err(Error::Decode(_))));
}

#[test]
fn unmasked_client_frames_are_refused_by_default() {
    let mut codec = WebSocketCodec::server();
    codec.state = WebSocketState::Frames;
    let mut buf = BytesMut::from(&[0x81, 0x02, b'h', b'i'][..]);
    assert!(matches!(codec.decode(&mut buf), Err(Error::Decode(_))));
}

#[test]
fn frame_size_limit_applies() {
    let mut codec = WebSocketCodec::server().require_masked_client_frames(false).max_frame_len(3);
    codec.state = WebSocketState::Frames;
    let mut buf = BytesMut::from(&[0x82, 0x04, 1, 2, 3, 4][..]);
    assert!(matches!(codec.decode(&mut buf), Err(Error::FrameTooLarge { current: 4, max: 3 })));
}

#[test]
fn handshake_waits_for_the_blank_line_and_limits_headers() {
    let mut codec = WebSocketCodec::server();
    let mut buf = BytesMut::from(&b"GET /chat HTTP/1.1\r\nHost: x\r\n"[..]);
    assert_eq!(codec.decode(&mut buf).expect("decode"), None);

    let mut codec = WebSocketCodec::server().max_http_header_len(8);
    let mut buf = BytesMut::from(&b"GET /chat HTTP/1.1\r\n"[..]);
    assert!(matches!(codec.decode(&mut buf), Err(Error::FrameTooLarge { current: 20, max: 8 })));
}

#[test]
fn handshake_needs_upgrade_headers() {
    let mut codec = WebSocketCodec::server();
    let mut buf = BytesMut::from(
        &b"GET /chat HTTP/1.1\r\n\
Host: server.example.com\r\n\
Sec-WebSocket-Key: dGhlIHNhbXBsZSBub25jZQ==\r\n\
Sec-WebSocket-Version: 13\r\n\
\r\n"[..],
    );
    assert!(matches!(codec.decode(&mut buf), Err(Error::Decode(_))));
}

#[test]
fn handshake_headers_are_found_without_case() {
    let mut codec = WebSocketCodec::server();
    let mut buf = BytesMut::from(
        &b"GET /ws?x=1 HTTP/1.1\r\n\
host: h\r\n\
upgrade: WebSocket\r\n\
connection: keep-alive, Upgrade\r\n\
sec-websocket-key: dGhlIHNhbXBsZSBub25jZQ==\r\n\
sec-websocket-version: 13\r\n\
\r\n"[..],
    );
    let Some(WebSocketInbound::Handshake(handshake)) = codec.decode(&mut buf).expect("decode") else {
        panic!("expected handshake");
    };
    assert_eq!(handshake.path(), "/ws?x=1");
    assert_eq!(handshake.key(), "dGhlIHNhbXBsZSBub25jZQ==");
    assert_eq!(handshake.header("HOST"), Some("h"));
    assert_eq!(handshake.header("missing"), None);
}
