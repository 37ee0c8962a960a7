use bytes::{Bytes, BytesMut};
use rs_netty::codec::{
    ByteArrayDecoder, Decoder, DelimiterBasedFrameDecoder, Encoder, FixedLengthFrameDecoder,
    LengthFieldBasedFrameDecoder,
};

#[test]
fn drains_available_bytes() {
    let mut codec = ByteArrayDecoder;
    let mut buf = BytesMut::from(&b"abc"[..]);

    assert_eq!(
        codec.decode(&mut buf).expect("decode"),
        Some(Bytes::from_static(b"abc"))
    );
    assert!(buf.is_empty());
}

#[test]
fn decodes_delimited_frame() {
    let mut codec = DelimiterBasedFrameDecoder::new(1024, Bytes::from_static(b"|"));
    let mut buf = BytesMut::from(&b"one|two|"[..]);

    assert_eq!(
        codec.decode(&mut buf).expect("decode"),
        Some(Bytes::from_static(b"one"))
    );
    assert_eq!(
        codec.decode(&mut buf).expect("decode"),
        Some(Bytes::from_static(b"two"))
    );
}

#[test]
fn splits_fixed_length_frames() {
    let mut codec = FixedLengthFrameDecoder::new(3);
    let mut buf = BytesMut::from(&b"abcdef"[..]);

    assert_eq!(
        codec.decode(&mut buf).expect("decode"),
        Some(Bytes::from_static(b"abc"))
    );
    assert_eq!(
        codec.decode(&mut buf).expect("decode"),
        Some(Bytes::from_static(b"def"))
    );
    assert!(buf.is_empty());
}

#[test]
fn decodes_and_encodes_length_prefixed_frame() {
    let mut codec = LengthFieldBasedFrameDecoder::default();
    let mut buf = BytesMut::new();

    codec
        .encode(Bytes::from_static(b"ping"), &mut buf)
        .expect("encode");
    assert_eq!(&buf[..], b"\0\0\0\x04ping");

    let frame = codec.decode(&mut buf).expect("decode").expect("frame");
    assert_eq!(frame, Bytes::from_static(b"ping"));
    assert!(buf.is_empty());
}
