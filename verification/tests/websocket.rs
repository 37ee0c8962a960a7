use bytes::BytesMut;
use rs_netty::codec::websocket::WebSocketState;
use rs_netty::codec::{
    Decoder, Encoder, WebSocketClose, WebSocketCodec, WebSocketInbound, WebSocketOutbound,
};
use rs_netty::Error;

const HANDSHAKE: &[u8] = b"GET /chat HTTP/1.1\r\n\
Host: server.example.com\r\n\
Upgrade: websocket\r\n\
Connection: Upgrade\r\n\
Sec-WebSocket-Key: dGhlIHNhbXBsZSBub25jZQ==\r\n\
Sec-WebSocket-Version: 13\r\n\
\r\n";

#[test]
fn decodes_handshake_and_encodes_accept_response() {
    let mut codec = WebSocketCodec::server();
    let mut buf = BytesMut::from(HANDSHAKE);

    let msg = codec.decode(&mut buf).expect("decode").expect("handshake");
    let WebSocketInbound::Handshake(handshake) = msg else {
        panic!("expected handshake");
    };
    assert_eq!(handshake.path(), "/chat");

    let mut out = BytesMut::new();
    codec
        .encode(
            WebSocketOutbound::from(handshake.accept_response()),
            &mut out,
        )
        .expect("encode");
    let response = std::str::from_utf8(&out).expect("utf-8 response");
    assert!(response.contains("HTTP/1.1 101 Switching Protocols\r\n"));
    assert!(response.contains("Sec-WebSocket-Accept: s3pPLMBiTxaQ9kYGzzhZRbK+xOo=\r\n"));
}

#[test]
fn decodes_masked_text_frame_after_handshake() {
    let mut codec = WebSocketCodec::server();
    let mut buf = BytesMut::from(HANDSHAKE);
    let _ = codec.decode(&mut buf).expect("decode").expect("handshake");

    buf.extend_from_slice(&[0x81, 0x85, 0x37, 0xfa, 0x21, 0x3d]);
    buf.extend_from_slice(&[0x7f, 0x9f, 0x4d, 0x51, 0x58]);
    let msg = codec.decode(&mut buf).expect("decode").expect("frame");

    assert_eq!(msg, WebSocketInbound::Text("Hello".to_string()));
    assert!(buf.is_empty());
}

#[test]
fn preserves_half_frame_and_decodes_when_complete() {
    let mut codec = WebSocketCodec::server().require_masked_client_frames(false);
    codec.state = WebSocketState::Frames;
    let mut buf = BytesMut::from(&[0x81, 0x05, b'H'][..]);

    assert!(codec.decode(&mut buf).expect("partial").is_none());
    assert_eq!(&buf[..], &[0x81, 0x05, b'H']);

    buf.extend_from_slice(b"ello");
    assert_eq!(
        codec.decode(&mut buf).expect("decode"),
        Some(WebSocketInbound::Text("Hello".to_string()))
    );
}

#[test]
fn decodes_sticky_frames() {
    let mut codec = WebSocketCodec::server().require_masked_client_frames(false);
    codec.state = WebSocketState::Frames;
    let mut buf = BytesMut::from(&[0x81, 0x02, b'h', b'i', 0x81, 0x02, b'o', b'k'][..]);

    assert_eq!(
        codec.decode(&mut buf).expect("decode"),
        Some(WebSocketInbound::Text("hi".to_string()))
    );
    assert_eq!(
        codec.decode(&mut buf).expect("decode"),
        Some(WebSocketInbound::Text("ok".to_string()))
    );
    assert!(buf.is_empty());
}

#[test]
fn rejects_invalid_handshake_key() {
    let mut codec = WebSocketCodec::server();
    let mut buf = BytesMut::from(
        &b"GET /chat HTTP/1.1\r\n\
Host: server.example.com\r\n\
Upgrade: websocket\r\n\
Connection: Upgrade\r\n\
Sec-WebSocket-Key: not-a-valid-key\r\n\
Sec-WebSocket-Version: 13\r\n\
\r\n"[..],
    );

    assert!(matches!(codec.decode(&mut buf), Err(Error::Decode(_))));
}

#[test]
fn rejects_reserved_bits_without_extension() {
    let mut codec = WebSocketCodec::server().require_masked_client_frames(false);
    codec.state = WebSocketState::Frames;
    let mut buf = BytesMut::from(&[0xC1, 0x02, b'h', b'i'][..]);

    assert!(matches!(codec.decode(&mut buf), Err(Error::Decode(_))));
}

#[test]
fn rejects_non_minimal_payload_length_encoding() {
    let mut codec = WebSocketCodec::server().require_masked_client_frames(false);
    codec.state = WebSocketState::Frames;
    let mut buf = BytesMut::from(&[0x81, 126, 0, 2, b'h', b'i'][..]);

    assert!(matches!(codec.decode(&mut buf), Err(Error::Decode(_))));
}

#[test]
fn rejects_payload_length_with_reserved_high_bit() {
    let mut codec = WebSocketCodec::server().require_masked_client_frames(false);
    codec.state = WebSocketState::Frames;
    let mut buf = BytesMut::from(&[0x82, 127, 0x80, 0, 0, 0, 0, 0, 0, 0][..]);

    assert!(matches!(codec.decode(&mut buf), Err(Error::Decode(_))));
}

#[test]
fn rejects_invalid_close_code_on_decode_and_encode() {
    let mut codec = WebSocketCodec::server().require_masked_client_frames(false);
    codec.state = WebSocketState::Frames;
    let mut buf = BytesMut::from(&[0x88, 0x02, 0x03, 0xEE][..]);

    assert!(matches!(codec.decode(&mut buf), Err(Error::Decode(_))));

    let mut out = BytesMut::new();
    assert!(matches!(
        codec.encode(
            WebSocketOutbound::Close(Some(WebSocketClose {
                code: 1006,
                reason: String::new(),
            })),
            &mut out,
        ),
        Err(Error::Encode(_))
    ));
}
