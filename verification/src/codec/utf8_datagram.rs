//! UTF-8 text datagrams.
use bytes::BytesMut;
use vstd::prelude::*;
use vstd::utf8::{decode_utf8, encode_utf8, valid_utf8};

use crate::buf::{bytes_mut_extend, bytes_mut_view};
use crate::codec::{DatagramDecoder, DatagramEncoder};
use crate::text::utf8_string;
use crate::{Error, Result};

verus! {

/// UDP datagram codec whose messages are UTF-8 strings.
pub struct Utf8DatagramCodec;

impl DatagramDecoder for Utf8DatagramCodec {
    type Item = String;

    /// The datagram as text; refused when it is not UTF-8.
    fn decode_datagram(&mut self, src: &[u8]) -> (res: Result<String>)
        ensures
            valid_utf8(src@) ==> (res matches Ok(s) && s@ == decode_utf8(src@)),
            !valid_utf8(src@) ==> res matches Err(Error::Decode(_)),
    {
        match utf8_string(src) {
            Ok(text) => Ok(text),
            Err(message) => Err(Error::Decode(message)),
        }
    }
}

impl DatagramEncoder<String> for Utf8DatagramCodec {
    /// Appends the text's UTF-8 bytes.
    fn encode_datagram(&mut self, item: String, dst: &mut BytesMut) -> (res: Result<()>)
        ensures
            res is Ok,
            bytes_mut_view(*final(dst)) == bytes_mut_view(*old(dst)) + encode_utf8(item@),
    {
        bytes_mut_extend(dst, item.as_str().as_bytes());
        Ok(())
    }
}

} // verus!
