use bytes::{Bytes, BytesMut};
use rs_netty::codec::{
    ByteArrayEncoder, ByteOrder, BytesDatagramCodec, DatagramDecoder, DatagramEncoder, Decoder,
    DelimiterBasedFrameDecoder, Encoder, FixedLengthFrameDecoder, LengthFieldBasedFrameDecoder,
    LengthFieldPrepender, LineCodec, Utf8DatagramCodec,
};
use rs_netty::Error;

#[test]
fn line_codec_strips_line_endings() {
    let mut codec = LineCodec::new();
    let mut buf = BytesMut::from(&b"hello\r\nworld\n"[..]);
    assert_eq!(codec.decode(&mut buf).expect("decode"), Some("hello".to_string()));
    assert_eq!(codec.decode(&mut buf).expect("decode"), Some("world".to_string()));
    assert!(buf.is_empty());
}

#[test]
fn line_codec_waits_for_newline() {
    let mut codec = LineCodec::new();
    let mut buf = BytesMut::from(&b"abc"[..]);
    assert_eq!(codec.decode(&mut buf).expect("decode"), None);
    assert_eq!(&buf[..], b"abc");
}

#[test]
fn line_codec_refuses_long_lines() {
    let mut codec = LineCodec::with_max_line_len(3);
    let mut buf = BytesMut::from(&b"abcd"[..]);
    assert!(matches!(
        codec.decode(&mut buf),
        Err(Error::FrameTooLarge { current: 4, max: 3 })
    ));
    let mut buf = BytesMut::from(&b"abcde\n"[..]);
    assert!(matches!(
        codec.decode(&mut buf),
        Err(Error::FrameTooLarge { current: 5, max: 3 })
    ));
    let mut buf = BytesMut::from(&b"abc\n"[..]);
    assert_eq!(codec.decode(&mut buf).expect("decode"), Some("abc".to_string()));
}

#[test]
fn line_codec_refuses_invalid_utf8() {
    let mut codec = LineCodec::new();
    let mut buf = BytesMut::from(&[0xff, b'\n'][..]);
    assert!(matches!(codec.decode(&mut buf), Err(Error::Decode(_))));
}

#[test]
fn line_codec_reads_back_what_it_writes() {
    let mut codec = LineCodec::new();
    let mut buf = BytesMut::new();
    codec.encode("héllo wörld".to_string(), &mut buf).expect("encode");
    assert_eq!(&buf[..], "héllo wörld\n".as_bytes());
    buf.extend_from_slice(b"rest");
    assert_eq!(codec.decode(&mut buf).expect("decode"), Some("héllo wörld".to_string()));
    assert_eq!(&buf[..], b"rest");
}

#[test]
fn length_prepender_writes_each_width_and_order() {
    let mut buf = BytesMut::new();
    LengthFieldPrepender::new(1).encode(Bytes::from_static(b"ab"), &mut buf).expect("encode");
    assert_eq!(&buf[..], &[2, b'a', b'b']);

    let mut buf = BytesMut::new();
    LengthFieldPrepender::new(2)
        .byte_order(ByteOrder::LittleEndian)
        .encode(Bytes::from_static(b"abc"), &mut buf)
        .expect("encode");
    assert_eq!(&buf[..], &[3, 0, b'a', b'b', b'c']);

    let mut buf = BytesMut::new();
    LengthFieldPrepender::new(3).encode(Bytes::from_static(b"ab"), &mut buf).expect("encode");
    assert_eq!(&buf[..], &[0, 0, 2, b'a', b'b']);

    let mut buf = BytesMut::new();
    LengthFieldPrepender::new(3)
        .byte_order(ByteOrder::LittleEndian)
        .encode(Bytes::from_static(b"ab"), &mut buf)
        .expect("encode");
    assert_eq!(&buf[..], &[2, 0, 0, b'a', b'b']);

    let mut buf = BytesMut::new();
    LengthFieldPrepender::new(8)
        .byte_order(ByteOrder::LittleEndian)
        .encode(Bytes::from_static(b"x"), &mut buf)
        .expect("encode");
    assert_eq!(&buf[..], &[1, 0, 0, 0, 0, 0, 0, 0, b'x']);
}

#[test]
fn length_prepender_refuses_what_does_not_fit() {
    let mut buf = BytesMut::new();
    let big = Bytes::from(vec![0u8; 256]);
    assert!(matches!(
        LengthFieldPrepender::new(1).encode(big, &mut buf),
        Err(Error::Encode(_))
    ));
    assert!(buf.is_empty());
    assert!(matches!(
        LengthFieldPrepender::new(5).encode(Bytes::from_static(b"a"), &mut buf),
        Err(Error::Encode(_))
    ));
}

#[test]
fn length_field_decoder_reads_back_each_width_and_order() {
    for width in [1usize, 2, 3, 4, 8] {
        for order in [ByteOrder::BigEndian, ByteOrder::LittleEndian] {
            let mut codec = LengthFieldBasedFrameDecoder::new(1024, 0, width).byte_order(order);
            let mut buf = BytesMut::new();
            codec.encode(Bytes::from_static(b"payload"), &mut buf).expect("encode");
            assert_eq!(buf.len(), width + 7);
            buf.extend_from_slice(b"tail");
            assert_eq!(
                codec.decode(&mut buf).expect("decode"),
                Some(Bytes::from_static(b"payload"))
            );
            assert_eq!(&buf[..], b"tail");
        }
    }
}

#[test]
fn length_field_decoder_honours_offset_adjustment_and_strip() {
    let mut codec = LengthFieldBasedFrameDecoder::new(1024, 1, 2);
    let mut buf = BytesMut::from(&[0xaa, 0x00, 0x03, b'x', b'y', b'z'][..]);
    assert_eq!(codec.decode(&mut buf).expect("decode"), Some(Bytes::from_static(b"xyz")));

    let mut codec = LengthFieldBasedFrameDecoder::with_adjustment(1024, 0, 2, 2, 0);
    let mut buf = BytesMut::from(&[0x00, 0x03, b'a', b'b', b'c', b'd', b'e'][..]);
    assert_eq!(
        codec.decode(&mut buf).expect("decode"),
        Some(Bytes::from_static(&[0x00, 0x03, b'a', b'b', b'c', b'd', b'e']))
    );

    let mut codec = LengthFieldBasedFrameDecoder::with_adjustment(1024, 0, 1, -5, 1);
    let mut buf = BytesMut::from(&[2, b'a', b'b'][..]);
    assert!(matches!(codec.decode(&mut buf), Err(Error::Decode(_))));

    let mut codec = LengthFieldBasedFrameDecoder::with_adjustment(1024, 0, 1, 0, 5);
    let mut buf = BytesMut::from(&[1, b'a'][..]);
    assert!(matches!(codec.decode(&mut buf), Err(Error::Decode(_))));
}

#[test]
fn length_field_decoder_waits_and_limits() {
    let mut codec = LengthFieldBasedFrameDecoder::new(4, 0, 1);
    let mut buf = BytesMut::from(&[9, 1, 2][..]);
    assert!(matches!(
        codec.decode(&mut buf),
        Err(Error::FrameTooLarge { current: 10, max: 4 })
    ));

    let mut codec = LengthFieldBasedFrameDecoder::default();
    let mut buf = BytesMut::from(&[0, 0, 0][..]);
    assert_eq!(codec.decode(&mut buf).expect("decode"), None);
    buf.extend_from_slice(&[2, b'h']);
    assert_eq!(codec.decode(&mut buf).expect("decode"), None);
    assert_eq!(buf.len(), 5);

    let mut codec = LengthFieldBasedFrameDecoder::new(1024, 0, 5);
    let mut buf = BytesMut::from(&[0, 0, 0, 0, 1, b'a'][..]);
    assert!(matches!(codec.decode(&mut buf), Err(Error::Decode(_))));
}

#[test]
fn length_field_encoder_needs_zero_offset_and_adjustment() {
    let mut buf = BytesMut::new();
    let mut codec = LengthFieldBasedFrameDecoder::new(1024, 1, 2);
    assert!(matches!(
        codec.encode(Bytes::from_static(b"a"), &mut buf),
        Err(Error::Encode(_))
    ));
    let mut codec = LengthFieldBasedFrameDecoder::with_adjustment(1024, 0, 2, 1, 2);
    assert!(matches!(
        codec.encode(Bytes::from_static(b"a"), &mut buf),
        Err(Error::Encode(_))
    ));
}

#[test]
fn delimiter_decoder_picks_the_earliest_delimiter() {
    let mut codec = DelimiterBasedFrameDecoder::line_delimiter(1024);
    let mut buf = BytesMut::from(&b"ab\r\ncd\nef"[..]);
    assert_eq!(codec.decode(&mut buf).expect("decode"), Some(Bytes::from_static(b"ab")));
    assert_eq!(codec.decode(&mut buf).expect("decode"), Some(Bytes::from_static(b"cd")));
    assert_eq!(codec.decode(&mut buf).expect("decode"), None);
    assert_eq!(&buf[..], b"ef");
}

#[test]
fn delimiter_decoder_can_keep_the_delimiter() {
    let mut codec = DelimiterBasedFrameDecoder::new(1024, Bytes::from_static(b"||")).strip_delimiter(false);
    let mut buf = BytesMut::from(&b"a||b"[..]);
    assert_eq!(codec.decode(&mut buf).expect("decode"), Some(Bytes::from_static(b"a||")));
    assert_eq!(&buf[..], b"b");
}

#[test]
fn delimiter_decoder_limits_frames() {
    let mut codec = DelimiterBasedFrameDecoder::new(2, Bytes::from_static(b"|"));
    let mut buf = BytesMut::from(&b"abc"[..]);
    assert!(matches!(
        codec.decode(&mut buf),
        Err(Error::FrameTooLarge { current: 3, max: 2 })
    ));
    let mut buf = BytesMut::from(&b"abc|"[..]);
    assert!(matches!(
        codec.decode(&mut buf),
        Err(Error::FrameTooLarge { current: 3, max: 2 })
    ));
}

#[test]
fn delimiter_encoder_appends_the_first_delimiter() {
    let mut codec = DelimiterBasedFrameDecoder::new_many(
        16,
        vec![Bytes::from_static(b";"), Bytes::from_static(b"\n")],
    );
    let mut buf = BytesMut::new();
    codec.encode(Bytes::from_static(b"x"), &mut buf).expect("encode");
    assert_eq!(&buf[..], b"x;");
    buf.extend_from_slice(b"more");
    assert_eq!(codec.decode(&mut buf).expect("decode"), Some(Bytes::from_static(b"x")));
    assert_eq!(&buf[..], b"more");
}

#[test]
fn fixed_length_encoder_checks_the_length() {
    let mut codec = FixedLengthFrameDecoder::new(2);
    assert_eq!(codec.frame_length(), 2);
    let mut buf = BytesMut::new();
    codec.encode(Bytes::from_static(b"ab"), &mut buf).expect("encode");
    assert_eq!(&buf[..], b"ab");
    assert!(matches!(
        codec.encode(Bytes::from_static(b"abc"), &mut buf),
        Err(Error::Encode(_))
    ));
    assert_eq!(&buf[..], b"ab");
}

#[test]
fn byte_array_codecs_pass_bytes_through() {
    let mut buf = BytesMut::new();
    ByteArrayEncoder.encode(Bytes::from_static(b"raw"), &mut buf).expect("encode");
    assert_eq!(&buf[..], b"raw");
    let mut decoder = rs_netty::codec::ByteArrayDecoder;
    let mut empty = BytesMut::new();
    assert_eq!(decoder.decode(&mut empty).expect("decode"), None);
}

#[test]
fn datagram_codecs_keep_each_datagram() {
    let mut utf8 = Utf8DatagramCodec;
    assert_eq!(utf8.decode_datagram("héllo".as_bytes()).expect("decode"), "héllo");
    assert!(matches!(utf8.decode_datagram(&[0xc3]), Err(Error::Decode(_))));
    let mut buf = BytesMut::new();
    utf8.encode_datagram("pong".to_string(), &mut buf).expect("encode");
    assert_eq!(&buf[..], b"pong");

    let mut raw = BytesDatagramCodec;
    assert_eq!(raw.decode_datagram(&[1, 2, 3]).expect("decode"), Bytes::from_static(&[1, 2, 3]));
    let mut buf = BytesMut::new();
    raw.encode_datagram(Bytes::from_static(&[4, 5]), &mut buf).expect("encode");
    assert_eq!(&buf[..], &[4, 5]);
}
