use bytes::{Bytes, BytesMut};
use rs_netty::codec::http::default_reason;
use rs_netty::codec::{Decoder, Encoder, HttpCodec, HttpResponse};
use rs_netty::Error;

#[test]
fn reason_phrases_follow_the_status() {
    assert_eq!(default_reason(200), "OK");
    assert_eq!(default_reason(101), "Switching Protocols");
    assert_eq!(default_reason(404), "Not Found");
    assert_eq!(default_reason(413), "Payload Too Large");
    assert_eq!(default_reason(503), "Service Unavailable");
    assert_eq!(default_reason(299), "OK");
}

#[test]
fn response_keeps_an_explicit_content_length_and_reason() {
    let mut codec = HttpCodec::server();
    let mut out = BytesMut::new();
    let response = HttpResponse::new(404)
        .reason("Gone Away".to_string())
        .header("content-length".to_string(), "0".to_string());
    assert_eq!(response.status(), 404);
    codec.encode(response, &mut out).expect("encode");
    assert_eq!(&out[..], b"HTTP/1.1 404 Gone Away\r\ncontent-length: 0\r\n\r\n");

    let mut out = BytesMut::new();
    codec.encode(HttpResponse::new(204), &mut out).expect("encode");
    assert_eq!(&out[..], b"HTTP/1.1 204 No Content\r\nContent-Length: 0\r\n\r\n");

    let response = HttpResponse::new(200).body(Bytes::from_static(b"abc"));
    assert_eq!(response.body_bytes(), &Bytes::from_static(b"abc"));
}

#[test]
fn request_without_body_reads_headers_in_order() {
    let mut codec = HttpCodec::server();
    let mut buf = BytesMut::from(&b"GET /a HTTP/1.1\r\nHost: h\r\nX-Two:  2 \r\n\r\nnext"[..]);
    let request = codec.decode(&mut buf).expect("decode").expect("request");
    assert_eq!(request.method(), "GET");
    assert_eq!(request.target(), "/a");
    assert_eq!(request.version(), "HTTP/1.1");
    assert_eq!(
        request.headers(),
        &[("Host".to_string(), "h".to_string()), ("X-Two".to_string(), "2".to_string())]
    );
    assert_eq!(request.header("x-two"), Some("2"));
    assert_eq!(request.body(), &Bytes::new());
    assert!(!request.is_websocket_upgrade());
    assert_eq!(&buf[..], b"next");
}

#[test]
fn request_recognises_a_websocket_upgrade() {
    let mut codec = HttpCodec::server();
    let mut buf = BytesMut::from(
        &b"GET /ws HTTP/1.1\r\nConnection: keep-alive, Upgrade\r\nUpgrade: websocket\r\n\r\n"[..],
    );
    let request = codec.decode(&mut buf).expect("decode").expect("request");
    assert!(request.is_websocket_upgrade());
}

#[test]
fn limits_apply_to_head_and_body() {
    let mut codec = HttpCodec::server().max_header_len(10);
    let mut buf = BytesMut::from(&b"GET /long/path HTTP/1.1\r\n"[..]);
    assert!(matches!(codec.decode(&mut buf), Err(Error::FrameTooLarge { current: 25, max: 10 })));

    let mut codec = HttpCodec::server().max_body_len(3);
    let mut buf = BytesMut::from(&b"POST / HTTP/1.1\r\nContent-Length: 4\r\n\r\nabcd"[..]);
    assert!(matches!(codec.decode(&mut buf), Err(Error::FrameTooLarge { current: 4, max: 3 })));
}

#[test]
fn malformed_heads_are_refused() {
    let mut codec = HttpCodec::server();
    let mut buf = BytesMut::from(&b"GET /\r\n\r\n"[..]);
    assert!(matches!(codec.decode(&mut buf), Err(Error::Decode(_))));
    let mut buf = BytesMut::from(&b"GET / HTTP/1.1\r\nNoColon\r\n\r\n"[..]);
    assert!(matches!(codec.decode(&mut buf), Err(Error::Decode(_))));
    let mut buf = BytesMut::from(&b"POST / HTTP/1.1\r\nContent-Length: x\r\n\r\n"[..]);
    assert!(matches!(codec.decode(&mut buf), Err(Error::Decode(_))));
}

#[test]
fn chunked_body_refuses_bad_sizes() {
    let mut codec = HttpCodec::server().allow_chunked(true);
    let mut buf = BytesMut::from(&b"POST / HTTP/1.1\r\nTransfer-Encoding: chunked\r\n\r\nzz\r\n"[..]);
    assert!(matches!(codec.decode(&mut buf), Err(Error::Decode(_))));
    let mut codec = HttpCodec::server().allow_chunked(true).max_body_len(2);
    let mut buf = BytesMut::from(&b"POST / HTTP/1.1\r\nTransfer-Encoding: chunked\r\n\r\n3\r\nabc\r\n0\r\n\r\n"[..]);
    assert!(matches!(codec.decode(&mut buf), Err(Error::FrameTooLarge { .. })));
}
