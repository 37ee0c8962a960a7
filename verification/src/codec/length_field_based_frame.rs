//! Frames prefixed by a binary length field.
use bytes::{Bytes, BytesMut};
use vstd::prelude::*;

use crate::buf::{bytes_as_slice, bytes_mut_as_slice, bytes_mut_extend, bytes_mut_freeze, bytes_mut_split_to, bytes_mut_view, bytes_view};
use crate::codec::{Decoder, Encoder};
use crate::text::{message_with_number, message_with_text, u16_from_usize, u32_from_usize, u8_from_usize, usize_from_u64};
use crate::uint::{lemma_pow256_facts, pow256, read_uint, uint_bytes, uint_value};
use crate::{Error, Result};

verus! {

/// Byte order of a length field.
#[derive(Clone, Copy, Debug, Default, PartialEq, Eq, Structural)]
pub enum ByteOrder {
    /// Most significant byte first.
    #[default]
    BigEndian,
    /// Least significant byte first.
    LittleEndian,
}

/// Length fields of these sizes, in bytes, are supported.
pub open spec fn supported_field_len(n: int) -> bool {
    n == 1 || n == 2 || n == 3 || n == 4 || n == 8
}

/// The number a length field holds.
pub open spec fn field_value(field: Seq<u8>, order: ByteOrder) -> nat {
    uint_value(field, order == ByteOrder::BigEndian)
}

/// What the decoder makes of the bytes buffered so far.
pub ghost enum FrameStep {
    /// More bytes are needed.
    NeedMore,
    /// The frame would exceed the limit; `current` is its end.
    TooLarge { current: int },
    /// The length field cannot be used.
    Malformed,
    /// A frame is complete: it is `s[start..end]` and `s[..end]` is consumed.
    Frame { start: int, end: int },
}

/// The decoding rule of [`LengthFieldBasedFrameDecoder`] on the buffered bytes `s`.
pub open spec fn length_frame_step(
    max_frame_length: int,
    offset: int,
    field_len: int,
    adjustment: int,
    strip: int,
    order: ByteOrder,
    s: Seq<u8>,
) -> FrameStep {
    let field_end = offset + field_len;
    if s.len() < field_end {
        FrameStep::NeedMore
    } else if !supported_field_len(field_len) {
        FrameStep::Malformed
    } else {
        let value = field_value(s.subrange(offset, field_end), order);
        let adjusted = value + adjustment;
        let end = field_end + adjusted;
        if value > usize::MAX || adjusted < 0 || adjusted > usize::MAX || end > usize::MAX {
            FrameStep::Malformed
        } else if end > max_frame_length {
            FrameStep::TooLarge { current: end }
        } else if s.len() < end {
            FrameStep::NeedMore
        } else if strip > end {
            FrameStep::Malformed
        } else {
            FrameStep::Frame { start: strip, end }
        }
    }
}

/// How an encoder writes a length field: `Some(bytes)` when `len` fits a
/// field of `field_len` bytes, else `None`.
pub open spec fn length_field_fits(len: int, field_len: int) -> bool {
    supported_field_len(field_len) && len < pow256(field_len as nat)
}

/// `out` is `before`, then a `field_len`-byte field holding `len` in
/// `order`, then `payload`.
pub open spec fn framed(
    before: Seq<u8>,
    out: Seq<u8>,
    len: int,
    field_len: int,
    order: ByteOrder,
    payload: Seq<u8>,
) -> bool {
    &&& out.len() == before.len() + field_len + payload.len()
    &&& out.take(before.len() as int) == before
    &&& field_value(out.subrange(before.len() as int, before.len() + field_len), order) == len
    &&& out.skip(before.len() + field_len) == payload
}

/// Writes `len` as a length field of `length_field_length` bytes.
fn write_length(len: usize, length_field_length: usize, byte_order: ByteOrder, dst: &mut BytesMut) -> (res: Result<()>)
    ensures
        length_field_fits(len as int, length_field_length as int) ==> (res is Ok
            && framed(bytes_mut_view(*old(dst)), bytes_mut_view(*final(dst)), len as int,
                length_field_length as int, byte_order, Seq::<u8>::empty())),
        !length_field_fits(len as int, length_field_length as int) ==> (res matches Err(Error::Encode(_))
            && bytes_mut_view(*final(dst)) == bytes_mut_view(*old(dst))),
{
    proof {
        lemma_pow256_facts(8);
    }
    let n = length_field_length;
    if !(n == 1 || n == 2 || n == 3 || n == 4 || n == 8) {
        return Err(Error::Encode(message_with_number("unsupported length field length: ", n as u64)));
    }
    proof {
        lemma_pow256_facts(n as nat);
    }
    if n == 1 {
        match u8_from_usize(len) {
            Ok(_) => {},
            Err(message) => return Err(Error::Encode(message)),
        }
    } else if n == 2 {
        match u16_from_usize(len) {
            Ok(_) => {},
            Err(message) => return Err(Error::Encode(message)),
        }
    } else if n == 3 {
        if len > 0xff_ffff {
            let text = message_with_number("length ", len as u64);
            return Err(Error::Encode(message_with_text(text.as_str(), " exceeds 24-bit field")));
        }
    } else if n == 4 {
        match u32_from_usize(len) {
            Ok(_) => {},
            Err(message) => return Err(Error::Encode(message)),
        }
    }
    let field = uint_bytes(len as u64, n, byte_order == ByteOrder::BigEndian);
    let ghost before = bytes_mut_view(*dst);
    bytes_mut_extend(dst, field.as_slice());
    proof {
        let out = bytes_mut_view(*dst);
        assert(out.take(before.len() as int) =~= before);
        assert(out.subrange(before.len() as int, before.len() + n) =~= field@);
        assert(out.skip(before.len() + n) =~= Seq::<u8>::empty());
    }
    Ok(())
}

/// Codec for frames that carry their own length in a binary field.
pub struct LengthFieldBasedFrameDecoder {
    max_frame_length: usize,
    length_field_offset: usize,
    length_field_length: usize,
    length_adjustment: isize,
    initial_bytes_to_strip: usize,
    byte_order: ByteOrder,
}

impl LengthFieldBasedFrameDecoder {
    /// The longest frame accepted, counted from the start of the buffer.
    pub closed spec fn spec_max_frame_length(&self) -> usize {
        self.max_frame_length
    }

    /// Where the length field starts.
    pub closed spec fn spec_length_field_offset(&self) -> usize {
        self.length_field_offset
    }

    /// How many bytes the length field takes.
    pub closed spec fn spec_length_field_length(&self) -> usize {
        self.length_field_length
    }

    /// What is added to the field's value to find the frame's end.
    pub closed spec fn spec_length_adjustment(&self) -> isize {
        self.length_adjustment
    }

    /// How many leading bytes are dropped from each frame.
    pub closed spec fn spec_initial_bytes_to_strip(&self) -> usize {
        self.initial_bytes_to_strip
    }

    /// The length field's byte order.
    pub closed spec fn spec_byte_order(&self) -> ByteOrder {
        self.byte_order
    }

    /// The decoding rule for this configuration.
    pub open spec fn step(&self, s: Seq<u8>) -> FrameStep {
        length_frame_step(
            self.spec_max_frame_length() as int,
            self.spec_length_field_offset() as int,
            self.spec_length_field_length() as int,
            self.spec_length_adjustment() as int,
            self.spec_initial_bytes_to_strip() as int,
            self.spec_byte_order(),
            s,
        )
    }

    /// A decoder that strips the header (offset and length field) and uses
    /// the field as the body length. Offset and length are added, so their
    /// sum must fit in `usize`.
    pub fn new(max_frame_length: usize, length_field_offset: usize, length_field_length: usize) -> (r: Self)
        requires
            length_field_offset + length_field_length <= usize::MAX,
        ensures
            r.spec_max_frame_length() == max_frame_length,
            r.spec_length_field_offset() == length_field_offset,
            r.spec_length_field_length() == length_field_length,
            r.spec_length_adjustment() == 0,
            r.spec_initial_bytes_to_strip() == length_field_offset + length_field_length,
            r.spec_byte_order() == ByteOrder::BigEndian,
    {
        Self {
            max_frame_length,
            length_field_offset,
            length_field_length,
            length_adjustment: 0,
            initial_bytes_to_strip: length_field_offset + length_field_length,
            byte_order: ByteOrder::BigEndian,
        }
    }

    /// A decoder with every parameter given. Offset and length are added
    /// when decoding, so only a decoder whose sum fits in `usize` is
    /// [`Decoder::decodable`].
    pub fn with_adjustment(
        max_frame_length: usize,
        length_field_offset: usize,
        length_field_length: usize,
        length_adjustment: isize,
        initial_bytes_to_strip: usize,
    ) -> (r: Self)
        ensures
            r.spec_max_frame_length() == max_frame_length,
            r.spec_length_field_offset() == length_field_offset,
            r.spec_length_field_length() == length_field_length,
            r.spec_length_adjustment() == length_adjustment,
            r.spec_initial_bytes_to_strip() == initial_bytes_to_strip,
            r.spec_byte_order() == ByteOrder::BigEndian,
    {
        Self {
            max_frame_length,
            length_field_offset,
            length_field_length,
            length_adjustment,
            initial_bytes_to_strip,
            byte_order: ByteOrder::BigEndian,
        }
    }

    /// Sets the length field's byte order.
    pub fn byte_order(self, byte_order: ByteOrder) -> (r: Self)
        ensures
            r.spec_max_frame_length() == self.spec_max_frame_length(),
            r.spec_length_field_offset() == self.spec_length_field_offset(),
            r.spec_length_field_length() == self.spec_length_field_length(),
            r.spec_length_adjustment() == self.spec_length_adjustment(),
            r.spec_initial_bytes_to_strip() == self.spec_initial_bytes_to_strip(),
            r.spec_byte_order() == byte_order,
    {
        Self { byte_order, ..self }
    }

    /// Reads the length field, which starts at the offset.
    fn read_frame_length(&self, src: &[u8]) -> (res: Result<usize>)
        requires
            self.spec_length_field_offset() + self.spec_length_field_length() <= src@.len(),
        ensures
            ({
                let n = self.spec_length_field_length() as int;
                let off = self.spec_length_field_offset() as int;
                let value = field_value(src@.subrange(off, off + n), self.spec_byte_order());
                &&& !supported_field_len(n) ==> (res matches Err(Error::Decode(_)))
                &&& supported_field_len(n) && value > usize::MAX ==> (res matches Err(Error::Decode(_)))
                &&& supported_field_len(n) && value <= usize::MAX ==> res == Ok::<usize, Error>(value as usize)
            }),
    {
        let n = self.length_field_length;
        if !(n == 1 || n == 2 || n == 3 || n == 4 || n == 8) {
            return Err(Error::Decode(message_with_number("unsupported length field length: ", n as u64)));
        }
        let value = read_uint(src, self.length_field_offset, n, self.byte_order == ByteOrder::BigEndian);
        match usize_from_u64(value) {
            Ok(v) => Ok(v),
            Err(message) => Err(Error::Decode(message)),
        }
    }

    /// Writes the length field of an encoded frame: only without an offset
    /// or an adjustment.
    fn write_frame_length(&self, item_len: usize, dst: &mut BytesMut) -> (res: Result<()>)
        ensures
            ({
                let n = self.spec_length_field_length() as int;
                let ok_config = self.spec_length_field_offset() == 0 && self.spec_length_adjustment() == 0;
                &&& (!ok_config || !length_field_fits(item_len as int, n)) ==> (res matches Err(Error::Encode(_))
                    && bytes_mut_view(*final(dst)) == bytes_mut_view(*old(dst)))
                &&& ok_config && length_field_fits(item_len as int, n) ==> (res is Ok
                    && framed(bytes_mut_view(*old(dst)), bytes_mut_view(*final(dst)), item_len as int,
                        n, self.spec_byte_order(), Seq::<u8>::empty()))
            }),
    {
        if self.length_field_offset != 0 || self.length_adjustment != 0 {
            return Err(Error::Encode(owned_message(
                "LengthFieldBasedFrameDecoder encoder supports zero offset and zero adjustment only",
            )));
        }
        write_length(item_len, self.length_field_length, self.byte_order, dst)
    }
}

/// An error message without parameters.
fn owned_message(text: &str) -> (r: String)
    ensures
        r@ == text@,
{
    crate::text::owned(text)
}

/// The default longest frame of [`LengthFieldBasedFrameDecoder::default`]: 8 MiB.
pub const DEFAULT_MAX_FRAME_LENGTH: usize = 8388608;

impl Default for LengthFieldBasedFrameDecoder {
    /// An 8 MiB limit and a 4-byte big-endian length field at offset zero.
    fn default() -> (r: Self)
        ensures
            r.spec_max_frame_length() == DEFAULT_MAX_FRAME_LENGTH,
            r.spec_length_field_offset() == 0,
            r.spec_length_field_length() == 4,
            r.spec_length_adjustment() == 0,
            r.spec_initial_bytes_to_strip() == 4,
            r.spec_byte_order() == ByteOrder::BigEndian,
    {
        Self::new(DEFAULT_MAX_FRAME_LENGTH, 0, 4)
    }
}

impl Decoder for LengthFieldBasedFrameDecoder {
    type Item = Bytes;

    /// The end of the length field, offset plus length, fits in `usize`.
    open spec fn decodable(&self) -> bool {
        self.spec_length_field_offset() + self.spec_length_field_length() <= usize::MAX
    }

    /// Takes one frame out of `src` by the rule [`length_frame_step`]. Only a
    /// complete frame consumes bytes.
    fn decode(&mut self, src: &mut BytesMut) -> (res: Result<Option<Bytes>>)
        ensures
            *final(self) == *old(self),
            ({
                let s = bytes_mut_view(*old(src));
                match old(self).step(s) {
                    FrameStep::NeedMore => (res matches Ok(None) && bytes_mut_view(*final(src)) == s),
                    FrameStep::TooLarge { current } => (res matches Err(Error::FrameTooLarge { current: c, max: m })
                        && c == current && m == old(self).spec_max_frame_length()
                        && bytes_mut_view(*final(src)) == s),
                    FrameStep::Malformed => (res matches Err(Error::Decode(_)) && bytes_mut_view(*final(src)) == s),
                    FrameStep::Frame { start, end } => (res matches Ok(Some(frame))
                        && bytes_view(frame) == s.subrange(start, end)
                        && bytes_mut_view(*final(src)) == s.skip(end)),
                }
            }),
    {
        let slice = bytes_mut_as_slice(src);
        let len = slice.len();
        let field_end = self.length_field_offset + self.length_field_length;
        if len < field_end {
            return Ok(None);
        }
        let frame_length = match self.read_frame_length(slice) {
            Ok(v) => v,
            Err(err) => return Err(err),
        };
        let adjusted = match frame_length.checked_add_signed(self.length_adjustment) {
            Some(v) => v,
            None => return Err(Error::Decode(owned_message("negative adjusted frame length"))),
        };
        let frame_end = match field_end.checked_add(adjusted) {
            Some(v) => v,
            None => return Err(Error::Decode(owned_message("frame length overflow"))),
        };
        if frame_end > self.max_frame_length {
            return Err(Error::FrameTooLarge { current: frame_end, max: self.max_frame_length });
        }
        if len < frame_end {
            return Ok(None);
        }
        if self.initial_bytes_to_strip > frame_end {
            let strip = message_with_number("initial_bytes_to_strip=", self.initial_bytes_to_strip as u64);
            let end = message_with_number(" exceeds frame length=", frame_end as u64);
            return Err(Error::Decode(message_with_text(strip.as_str(), end.as_str())));
        }
        let ghost s = bytes_mut_view(*src);
        let mut frame = bytes_mut_split_to(src, frame_end);
        let _stripped = bytes_mut_split_to(&mut frame, self.initial_bytes_to_strip);
        proof {
            assert(bytes_mut_view(frame) =~= s.subrange(self.initial_bytes_to_strip as int, frame_end as int));
        }
        Ok(Some(bytes_mut_freeze(frame)))
    }
}

impl Encoder<Bytes> for LengthFieldBasedFrameDecoder {
    /// Writes the length field and the frame; only without an offset or an
    /// adjustment, and when the length fits the field.
    fn encode(&mut self, item: Bytes, dst: &mut BytesMut) -> (res: Result<()>)
        ensures
            *final(self) == *old(self),
            ({
                let n = old(self).spec_length_field_length() as int;
                let len = bytes_view(item).len() as int;
                let ok_config = old(self).spec_length_field_offset() == 0 && old(self).spec_length_adjustment() == 0;
                &&& (!ok_config || !length_field_fits(len, n)) ==> (res matches Err(Error::Encode(_))
                    && bytes_mut_view(*final(dst)) == bytes_mut_view(*old(dst)))
                &&& ok_config && length_field_fits(len, n) ==> (res is Ok
                    && framed(bytes_mut_view(*old(dst)), bytes_mut_view(*final(dst)), len, n,
                        old(self).spec_byte_order(), bytes_view(item)))
            }),
    {
        let payload = bytes_as_slice(&item);
        let ghost before = bytes_mut_view(*dst);
        match self.write_frame_length(payload.len(), dst) {
            Ok(()) => {},
            Err(err) => return Err(err),
        }
        let ghost mid = bytes_mut_view(*dst);
        bytes_mut_extend(dst, payload);
        proof {
            lemma_framed_append(before, mid, bytes_mut_view(*dst), payload@.len() as int,
                self.length_field_length as int, self.byte_order, payload@);
        }
        Ok(())
    }
}

proof fn lemma_framed_append(
    before: Seq<u8>,
    mid: Seq<u8>,
    out: Seq<u8>,
    len: int,
    n: int,
    order: ByteOrder,
    payload: Seq<u8>,
)
    requires
        framed(before, mid, len, n, order, Seq::<u8>::empty()),
        out == mid + payload,
        0 <= n,
    ensures
        framed(before, out, len, n, order, payload),
{
    assert(out.take(before.len() as int) =~= mid.take(before.len() as int));
    assert(out.subrange(before.len() as int, before.len() + n) =~= mid.subrange(before.len() as int, before.len() + n));
    assert(out.skip(before.len() + n) =~= payload);
}

/// Encoder that writes a length field before each frame.
pub struct LengthFieldPrepender {
    length_field_length: usize,
    byte_order: ByteOrder,
}

impl LengthFieldPrepender {
    /// How many bytes the length field takes.
    pub closed spec fn spec_length_field_length(&self) -> usize {
        self.length_field_length
    }

    /// The length field's byte order.
    pub closed spec fn spec_byte_order(&self) -> ByteOrder {
        self.byte_order
    }

    /// A prepender with a big-endian field of `length_field_length` bytes.
    pub fn new(length_field_length: usize) -> (r: Self)
        ensures
            r.spec_length_field_length() == length_field_length,
            r.spec_byte_order() == ByteOrder::BigEndian,
    {
        Self { length_field_length, byte_order: ByteOrder::BigEndian }
    }

    /// Sets the length field's byte order.
    pub fn byte_order(self, byte_order: ByteOrder) -> (r: Self)
        ensures
            r.spec_length_field_length() == self.spec_length_field_length(),
            r.spec_byte_order() == byte_order,
    {
        Self { length_field_length: self.length_field_length, byte_order }
    }
}

impl Encoder<Bytes> for LengthFieldPrepender {
    /// Writes the length field and the frame when the length fits the field.
    fn encode(&mut self, item: Bytes, dst: &mut BytesMut) -> (res: Result<()>)
        ensures
            *final(self) == *old(self),
            ({
                let n = old(self).spec_length_field_length() as int;
                let len = bytes_view(item).len() as int;
                &&& !length_field_fits(len, n) ==> (res matches Err(Error::Encode(_))
                    && bytes_mut_view(*final(dst)) == bytes_mut_view(*old(dst)))
                &&& length_field_fits(len, n) ==> (res is Ok
                    && framed(bytes_mut_view(*old(dst)), bytes_mut_view(*final(dst)), len, n,
                        old(self).spec_byte_order(), bytes_view(item)))
            }),
    {
        let payload = bytes_as_slice(&item);
        let ghost before = bytes_mut_view(*dst);
        match write_length(payload.len(), self.length_field_length, self.byte_order, dst) {
            Ok(()) => {},
            Err(err) => return Err(err),
        }
        let ghost mid = bytes_mut_view(*dst);
        bytes_mut_extend(dst, payload);
        proof {
            lemma_framed_append(before, mid, bytes_mut_view(*dst), payload@.len() as int,
                self.length_field_length as int, self.byte_order, payload@);
        }
        Ok(())
    }
}

/// A frame written with a length field of `n` bytes in `order` (by
/// [`LengthFieldPrepender`], or by the decoder's own encoder), followed by
/// any bytes, is read back by a decoder with that field at offset zero, no
/// adjustment and the field stripped: the decoder yields the payload and
/// consumes exactly the frame. This holds when the frame fits the decoder's
/// limit and `usize`.
pub proof fn lemma_length_field_roundtrip(
    max: int,
    n: int,
    order: ByteOrder,
    out: Seq<u8>,
    payload: Seq<u8>,
    rest: Seq<u8>,
)
    requires
        supported_field_len(n),
        framed(Seq::empty(), out, payload.len() as int, n, order, payload),
        n + payload.len() <= max,
        n + payload.len() <= usize::MAX,
    ensures
        length_frame_step(max, 0, n, 0, n, order, out + rest) == (FrameStep::Frame {
            start: n,
            end: n + payload.len(),
        }),
        (out + rest).subrange(n, n + payload.len()) == payload,
        (out + rest).skip(n + payload.len()) == rest,
{
    let s = out + rest;
    assert(s.subrange(0, n) =~= out.subrange(0, n));
    assert(s.subrange(n, n + payload.len()) =~= out.skip(n));
    assert(s.skip(n + payload.len()) =~= rest);
}

} // verus!
