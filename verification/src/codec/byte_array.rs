//! Pass-through byte codecs.
use bytes::{Bytes, BytesMut};
use vstd::prelude::*;

use crate::buf::{bytes_as_slice, bytes_mut_as_slice, bytes_mut_extend, bytes_mut_freeze, bytes_mut_split, bytes_mut_view, bytes_view};
use crate::codec::{Decoder, Encoder};
use crate::Result;

verus! {

/// Byte stream drain codec.
///
/// Decoding returns all bytes currently buffered as one [`Bytes`] value. This
/// is useful for protocols that already have an external message boundary or
/// for tests; it is not a framing codec for arbitrary TCP streams.
pub struct ByteArrayDecoder;

impl Decoder for ByteArrayDecoder {
    type Item = Bytes;

    /// Every configuration can be run.
    open spec fn decodable(&self) -> bool {
        true
    }

    /// Hands out everything buffered, or waits when nothing is.
    fn decode(&mut self, src: &mut BytesMut) -> (res: Result<Option<Bytes>>)
        ensures
            bytes_mut_view(*old(src)).len() == 0 ==> (res matches Ok(None)
                && bytes_mut_view(*final(src)) == bytes_mut_view(*old(src))),
            bytes_mut_view(*old(src)).len() > 0 ==> (res matches Ok(Some(frame))
                && bytes_view(frame) == bytes_mut_view(*old(src))
                && bytes_mut_view(*final(src)) == Seq::<u8>::empty()),
    {
        if bytes_mut_as_slice(src).len() == 0 {
            return Ok(None);
        }
        Ok(Some(bytes_mut_freeze(bytes_mut_split(src))))
    }
}

impl Encoder<Bytes> for ByteArrayDecoder {
    /// Appends the bytes unchanged.
    fn encode(&mut self, item: Bytes, dst: &mut BytesMut) -> (res: Result<()>)
        ensures
            res is Ok,
            bytes_mut_view(*final(dst)) == bytes_mut_view(*old(dst)) + bytes_view(item),
    {
        bytes_mut_extend(dst, bytes_as_slice(&item));
        Ok(())
    }
}

/// Pass-through byte encoder.
pub struct ByteArrayEncoder;

impl Encoder<Bytes> for ByteArrayEncoder {
    /// Appends the bytes unchanged.
    fn encode(&mut self, item: Bytes, dst: &mut BytesMut) -> (res: Result<()>)
        ensures
            res is Ok,
            bytes_mut_view(*final(dst)) == bytes_mut_view(*old(dst)) + bytes_view(item),
    {
        bytes_mut_extend(dst, bytes_as_slice(&item));
        Ok(())
    }
}

} // verus!
