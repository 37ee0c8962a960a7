//! Raw byte datagrams.
use bytes::{Bytes, BytesMut};
use vstd::prelude::*;

use crate::buf::{bytes_as_slice, bytes_copy_from_slice, bytes_mut_extend, bytes_mut_view, bytes_view};
use crate::codec::{DatagramDecoder, DatagramEncoder};
use crate::Result;

verus! {

/// UDP datagram codec that preserves each datagram as raw bytes.
pub struct BytesDatagramCodec;

impl DatagramDecoder for BytesDatagramCodec {
    type Item = Bytes;

    /// The datagram's bytes, copied.
    fn decode_datagram(&mut self, src: &[u8]) -> (res: Result<Bytes>)
        ensures
            res matches Ok(b) && bytes_view(b) == src@,
    {
        Ok(bytes_copy_from_slice(src))
    }
}

impl DatagramEncoder<Bytes> for BytesDatagramCodec {
    /// Appends the bytes unchanged.
    fn encode_datagram(&mut self, item: Bytes, dst: &mut BytesMut) -> (res: Result<()>)
        ensures
            res is Ok,
            bytes_mut_view(*final(dst)) == bytes_mut_view(*old(dst)) + bytes_view(item),
    {
        bytes_mut_extend(dst, bytes_as_slice(&item));
        Ok(())
    }
}

} // verus!
