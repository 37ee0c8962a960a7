use bytes::{Bytes, BytesMut};
use rs_netty::codec::mqtt::MqttCodec;
use rs_netty::codec::{
    Decoder, DelimiterBasedFrameDecoder, Encoder, FixedLengthFrameDecoder, HttpCodec,
    LengthFieldBasedFrameDecoder, LengthFieldPrepender, LineCodec,
};
use rs_netty::Error;

fn decode_error<D: Decoder>(codec: &mut D, input: &[u8]) -> Error {
    let mut buf = BytesMut::from(input);
    match codec.decode(&mut buf) {
        Err(err) => err,
        Ok(_) => panic!("decoding was expected to fail"),
    }
}

fn decode_message<D: Decoder>(codec: &mut D, input: &[u8]) -> String {
    match decode_error(codec, input) {
        Error::Decode(message) => message,
        _ => panic!("a decode error was expected"),
    }
}

#[test]
fn fixed_length_mismatch_names_both_lengths() {
    let mut codec = FixedLengthFrameDecoder::new(3);
    let mut dst = BytesMut::new();
    match codec.encode(Bytes::from_static(b"ab"), &mut dst) {
        Err(Error::Encode(message)) => {
            assert_eq!(message, "fixed frame length mismatch: current=2, expected=3")
        }
        _ => panic!("an encode error was expected"),
    }
    assert!(dst.is_empty());
}

#[test]
fn content_length_parse_error_is_passed_on() {
    let mut codec = HttpCodec::server();
    assert_eq!(
        decode_message(&mut codec, b"POST / HTTP/1.1\r\nContent-Length: x\r\n\r\n"),
        "invalid Content-Length header: invalid digit found in string"
    );
    assert_eq!(
        decode_message(&mut codec, b"POST / HTTP/1.1\r\nContent-Length:  \r\n\r\n"),
        "invalid Content-Length header: cannot parse integer from empty string"
    );
    assert_eq!(
        decode_message(
            &mut codec,
            b"POST / HTTP/1.1\r\nContent-Length: 1\r\ncontent-length: 1\r\n\r\na"
        ),
        "multiple Content-Length headers are not supported"
    );
}

#[test]
fn content_length_with_plus_sign_is_accepted() {
    let mut codec = HttpCodec::server();
    let mut buf = BytesMut::from(&b"POST / HTTP/1.1\r\nContent-Length: +2\r\n\r\nab"[..]);
    let request = codec.decode(&mut buf).expect("decode").expect("request");
    assert_eq!(request.body(), &Bytes::from_static(b"ab"));
}

#[test]
fn transfer_encoding_and_header_errors_name_the_value() {
    let mut codec = HttpCodec::server();
    assert_eq!(
        decode_message(&mut codec, b"POST / HTTP/1.1\r\nTransfer-Encoding: gzip\r\n\r\n"),
        "unsupported Transfer-Encoding header: gzip"
    );
    assert_eq!(
        decode_message(&mut codec, b"GET / HTTP/1.1\r\nNoColon\r\n\r\n"),
        "invalid http header: NoColon"
    );
}

#[test]
fn chunk_size_error_carries_the_parse_error() {
    let mut codec = HttpCodec::server().allow_chunked(true);
    assert_eq!(
        decode_message(
            &mut codec,
            b"POST / HTTP/1.1\r\nTransfer-Encoding: chunked\r\n\r\nzz\r\n"
        ),
        "invalid chunk size: invalid digit found in string"
    );
}

#[test]
fn http_limits_report_their_maximum() {
    let mut codec = HttpCodec::server().max_header_len(8);
    assert!(matches!(
        decode_error(&mut codec, b"GET / HTTP/1.1\r\nHost: a\r\n"),
        Error::FrameTooLarge { current: 25, max: 8 }
    ));
    let mut codec = HttpCodec::server().allow_chunked(true).max_body_len(2);
    assert!(matches!(
        decode_error(
            &mut codec,
            b"POST / HTTP/1.1\r\nTransfer-Encoding: chunked\r\n\r\n3\r\nabc\r\n0\r\n\r\n"
        ),
        Error::FrameTooLarge { current: 3, max: 2 }
    ));
}

#[test]
fn mqtt_flag_and_body_errors() {
    let mut codec = MqttCodec::new();
    assert_eq!(
        decode_message(&mut codec, &[0xc1, 0x00]),
        "invalid MQTT flags for packet type 12: actual=0x1, expected=0x0"
    );
    let mut codec = MqttCodec::new();
    assert_eq!(
        decode_message(&mut codec, &[0xc0, 0x01, 0x00]),
        "MQTT packet body must be empty, got 1 bytes"
    );
}

#[test]
fn length_field_errors_name_their_values() {
    let mut prepender = LengthFieldPrepender::new(1);
    let mut dst = BytesMut::new();
    match prepender.encode(Bytes::from(vec![0u8; 256]), &mut dst) {
        Err(Error::Encode(message)) => {
            assert_eq!(message, "out of range integral type conversion attempted")
        }
        _ => panic!("an encode error was expected"),
    }
    let mut prepender = LengthFieldPrepender::new(3);
    let mut dst = BytesMut::new();
    match prepender.encode(Bytes::from(vec![0u8; 0x100_0000]), &mut dst) {
        Err(Error::Encode(message)) => assert_eq!(message, "length 16777216 exceeds 24-bit field"),
        _ => panic!("an encode error was expected"),
    }

    let mut decoder = LengthFieldBasedFrameDecoder::with_adjustment(1024, 0, 1, 0, 5);
    assert_eq!(
        decode_message(&mut decoder, &[0x01, b'a']),
        "initial_bytes_to_strip=5 exceeds frame length=2"
    );
}

#[test]
fn with_adjustment_accepts_any_offset() {
    let _decoder = LengthFieldBasedFrameDecoder::with_adjustment(16, usize::MAX, 4, 0, 0);
    let mut decoder = LengthFieldBasedFrameDecoder::with_adjustment(16, 1, 1, 0, 2);
    let mut buf = BytesMut::from(&[0xff, 0x02, b'h', b'i', b'!'][..]);
    assert_eq!(
        decoder.decode(&mut buf).expect("decode"),
        Some(Bytes::from_static(b"hi"))
    );
    assert_eq!(&buf[..], b"!");
}

#[test]
fn line_codec_default_matches_new() {
    let mut codec = LineCodec::default();
    let mut buf = BytesMut::from(&b"hello\r\n"[..]);
    assert_eq!(codec.decode(&mut buf).expect("decode"), Some("hello".to_string()));

    let mut long = vec![b'a'; 8193];
    long.push(b'\n');
    assert!(matches!(
        decode_error(&mut codec, &long),
        Error::FrameTooLarge { current: 8193, max: 8192 }
    ));
    let mut exact = vec![b'a'; 8192];
    exact.push(b'\n');
    let mut buf = BytesMut::from(&exact[..]);
    assert_eq!(codec.decode(&mut buf).expect("decode").map(|s| s.len()), Some(8192));
}

#[test]
fn delimiter_from_slice_refuses_an_empty_delimiter() {
    assert!(DelimiterBasedFrameDecoder::from_slice(16, b"").is_none());
    let mut codec = DelimiterBasedFrameDecoder::from_slice(16, b"|").expect("decoder");
    let mut buf = BytesMut::from(&b"ab|cd"[..]);
    assert_eq!(
        codec.decode(&mut buf).expect("decode"),
        Some(Bytes::from_static(b"ab"))
    );
    assert_eq!(&buf[..], b"cd");
}
