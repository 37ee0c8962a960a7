use bytes::{Bytes, BytesMut};
use rs_netty::codec::{Decoder, Encoder, HttpCodec, HttpResponse};
use rs_netty::Error;

#[test]
fn decodes_regular_http_request_and_encodes_response() {
    let mut codec = HttpCodec::server();
    let mut buf = BytesMut::from(
        &b"POST /hello HTTP/1.1\r\n\
Host: example.com\r\n\
Content-Length: 5\r\n\
\r\n\
world"[..],
    );

    let request = codec.decode(&mut buf).expect("decode").expect("request");
    assert_eq!(request.method(), "POST");
    assert_eq!(request.target(), "/hello");
    assert_eq!(request.header("host"), Some("example.com"));
    assert_eq!(request.body(), &Bytes::from_static(b"world"));

    let mut out = BytesMut::new();
    codec
        .encode(
            HttpResponse::new(200)
                .header("Content-Type".to_string(), "text/plain".to_string())
                .body(Bytes::from_static(b"ok")),
            &mut out,
        )
        .expect("encode");
    assert_eq!(
        std::str::from_utf8(&out).expect("response"),
        "HTTP/1.1 200 OK\r\nContent-Type: text/plain\r\nContent-Length: 2\r\n\r\nok"
    );
}

#[test]
fn waits_for_declared_body() {
    let mut codec = HttpCodec::server();
    let mut buf = BytesMut::from(
        &b"POST / HTTP/1.1\r\n\
Content-Length: 5\r\n\
\r\n\
he"[..],
    );

    assert!(codec.decode(&mut buf).expect("partial").is_none());
    buf.extend_from_slice(b"llo");
    assert_eq!(
        codec
            .decode(&mut buf)
            .expect("decode")
            .expect("request")
            .body(),
        &Bytes::from_static(b"hello")
    );
}

#[test]
fn rejects_chunked_by_default() {
    let mut codec = HttpCodec::server();
    let mut buf = BytesMut::from(
        &b"POST / HTTP/1.1\r\n\
Transfer-Encoding: chunked\r\n\
\r\n\
5\r\nhello\r\n0\r\n\r\n"[..],
    );

    assert!(matches!(codec.decode(&mut buf), Err(Error::Decode(_))));
}

#[test]
fn decodes_chunked_body_when_enabled() {
    let mut codec = HttpCodec::server().allow_chunked(true);
    let mut buf = BytesMut::from(
        &b"POST / HTTP/1.1\r\n\
Transfer-Encoding: chunked\r\n\
\r\n\
5\r\nhello\r\n6;ext=value\r\n world\r\n0\r\n\r\n"[..],
    );

    let request = codec.decode(&mut buf).expect("decode").expect("request");
    assert_eq!(request.body(), &Bytes::from_static(b"hello world"));
    assert!(request.trailers().is_empty());
}

#[test]
fn decodes_chunked_trailers_when_preserved() {
    let mut codec = HttpCodec::server()
        .allow_chunked(true)
        .preserve_trailers(true);
    let mut buf = BytesMut::from(
        &b"POST / HTTP/1.1\r\n\
Transfer-Encoding: chunked\r\n\
\r\n\
2\r\nhi\r\n0\r\nExpires: never\r\n\r\n"[..],
    );

    let request = codec.decode(&mut buf).expect("decode").expect("request");
    assert_eq!(request.body(), &Bytes::from_static(b"hi"));
    assert_eq!(
        request.trailers(),
        &[("Expires".to_string(), "never".to_string())]
    );
}

#[test]
fn rejects_chunked_with_content_length() {
    let mut codec = HttpCodec::server().allow_chunked(true);
    let mut buf = BytesMut::from(
        &b"POST / HTTP/1.1\r\n\
Transfer-Encoding: chunked\r\n\
Content-Length: 5\r\n\
\r\n\
0\r\n\r\n"[..],
    );

    assert!(matches!(codec.decode(&mut buf), Err(Error::Decode(_))));
}

#[test]
fn waits_for_complete_chunked_body() {
    let mut codec = HttpCodec::server().allow_chunked(true);
    let mut buf = BytesMut::from(
        &b"POST / HTTP/1.1\r\n\
Transfer-Encoding: chunked\r\n\
\r\n\
5\r\nhe"[..],
    );

    assert!(codec.decode(&mut buf).expect("partial").is_none());
    buf.extend_from_slice(b"llo\r\n0\r\n\r\n");
    assert_eq!(
        codec
            .decode(&mut buf)
            .expect("decode")
            .expect("request")
            .body(),
        &Bytes::from_static(b"hello")
    );
}
