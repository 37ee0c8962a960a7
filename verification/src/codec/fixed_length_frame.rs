//! Frames of one fixed length.
use bytes::{Bytes, BytesMut};
use vstd::prelude::*;

use crate::buf::{bytes_as_slice, bytes_mut_as_slice, bytes_mut_extend, bytes_mut_freeze, bytes_mut_split_to, bytes_mut_view, bytes_view};
use crate::codec::{Decoder, Encoder};
use crate::text::{decimal_text, message_with_number, message_with_text};
use crate::{Error, Result};

verus! {

/// Codec whose frames all hold `frame_length` bytes.
pub struct FixedLengthFrameDecoder {
    frame_length: usize,
}

impl FixedLengthFrameDecoder {
    /// The length of every frame.
    pub closed spec fn spec_frame_length(&self) -> usize {
        self.frame_length
    }

    /// The frame length is never zero.
    #[verifier::type_invariant]
    closed spec fn inv(&self) -> bool {
        self.frame_length > 0
    }

    /// A codec for frames of `frame_length` bytes, which must not be zero.
    pub fn new(frame_length: usize) -> (r: Self)
        requires
            frame_length > 0,
        ensures
            r.spec_frame_length() == frame_length,
    {
        Self { frame_length }
    }

    /// The length of every frame.
    pub fn frame_length(&self) -> (r: usize)
        ensures
            r == self.spec_frame_length(),
            r > 0,
    {
        proof {
            use_type_invariant(self);
        }
        self.frame_length
    }
}

impl Decoder for FixedLengthFrameDecoder {
    type Item = Bytes;

    /// Every configuration can be run.
    open spec fn decodable(&self) -> bool {
        true
    }

    /// Takes the next `frame_length` bytes, or waits for them.
    fn decode(&mut self, src: &mut BytesMut) -> (res: Result<Option<Bytes>>)
        ensures
            final(self).spec_frame_length() == old(self).spec_frame_length(),
            ({
                let s = bytes_mut_view(*old(src));
                let n = old(self).spec_frame_length() as int;
                &&& s.len() < n ==> (res matches Ok(None) && bytes_mut_view(*final(src)) == s)
                &&& s.len() >= n ==> (res matches Ok(Some(frame)) && bytes_view(frame) == s.take(n)
                    && bytes_mut_view(*final(src)) == s.skip(n))
            }),
    {
        if bytes_mut_as_slice(src).len() < self.frame_length {
            return Ok(None);
        }
        Ok(Some(bytes_mut_freeze(bytes_mut_split_to(src, self.frame_length))))
    }
}

impl Encoder<Bytes> for FixedLengthFrameDecoder {
    /// Appends the frame when it has exactly `frame_length` bytes.
    fn encode(&mut self, item: Bytes, dst: &mut BytesMut) -> (res: Result<()>)
        ensures
            final(self).spec_frame_length() == old(self).spec_frame_length(),
            bytes_view(item).len() == old(self).spec_frame_length() ==> (res is Ok
                && bytes_mut_view(*final(dst)) == bytes_mut_view(*old(dst)) + bytes_view(item)),
            bytes_view(item).len() != old(self).spec_frame_length() ==> (res matches Err(Error::Encode(m))
                && m@ == "fixed frame length mismatch: current="@ + decimal_text(bytes_view(item).len())
                    + ", expected="@ + decimal_text(old(self).spec_frame_length() as nat)
                && bytes_mut_view(*final(dst)) == bytes_mut_view(*old(dst))),
    {
        let bytes = bytes_as_slice(&item);
        if bytes.len() != self.frame_length {
            let current = message_with_number("fixed frame length mismatch: current=", bytes.len() as u64);
            let expected = message_with_number(", expected=", self.frame_length as u64);
            return Err(Error::Encode(message_with_text(current.as_str(), expected.as_str())));
        }
        bytes_mut_extend(dst, bytes);
        Ok(())
    }
}

} // verus!
