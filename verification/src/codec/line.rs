//! Newline-delimited UTF-8 text frames.
use bytes::BytesMut;
use vstd::prelude::*;
use vstd::slice::slice_subrange;
use vstd::utf8::*;

use crate::buf::{bytes_mut_as_slice, bytes_mut_extend, bytes_mut_split_to, bytes_mut_view};
use crate::codec::{Decoder, Encoder};
use crate::search::{find_byte, first_match, is_first_match, lemma_first_match_is, matches_at};
use crate::text::utf8_string;
use crate::{Error, Result};

verus! {

/// The default longest line, in bytes, that [`LineCodec::new`] accepts.
pub const DEFAULT_MAX_LINE_LEN: usize = 8192;

/// Codec for `\n`-terminated lines; a `\r` before the `\n` is dropped.
pub struct LineCodec {
    max_line_len: usize,
}

/// The bytes of the line that ends with the newline at `pos`: everything
/// before it, without one trailing carriage return.
pub open spec fn line_body(s: Seq<u8>, pos: int) -> Seq<u8> {
    let body = s.take(pos);
    if body.len() > 0 && body.last() == 13u8 {
        body.drop_last()
    } else {
        body
    }
}

/// The encoding of one line: its UTF-8 bytes and a newline.
pub open spec fn line_encoding(line: Seq<char>) -> Seq<u8> {
    encode_utf8(line) + seq![10u8]
}

impl LineCodec {
    /// The longest line body accepted, in bytes.
    pub closed spec fn max_line_len(&self) -> usize {
        self.max_line_len
    }

    /// A codec that accepts lines of up to 8 KiB.
    pub fn new() -> (r: Self)
        ensures
            r.max_line_len() == DEFAULT_MAX_LINE_LEN,
    {
        Self { max_line_len: DEFAULT_MAX_LINE_LEN }
    }

    /// A codec that accepts lines of up to `max_line_len` bytes.
    pub fn with_max_line_len(max_line_len: usize) -> (r: Self)
        ensures
            r.max_line_len() == max_line_len,
    {
        Self { max_line_len }
    }
}

impl Default for LineCodec {
    /// The same codec as [`LineCodec::new`]: lines of up to 8 KiB.
    fn default() -> (r: Self)
        ensures
            r.max_line_len() == DEFAULT_MAX_LINE_LEN,
    {
        Self::new()
    }
}

impl Decoder for LineCodec {
    type Item = String;

    /// Every configuration can be run.
    open spec fn decodable(&self) -> bool {
        true
    }

    /// Takes one line out of `src`. Without a newline, waits for more bytes
    /// unless the buffer already holds more than the limit. A line longer
    /// than the limit is refused; a line that is not UTF-8 is consumed and
    /// refused.
    fn decode(&mut self, src: &mut BytesMut) -> (res: Result<Option<String>>)
        ensures
            final(self).max_line_len() == old(self).max_line_len(),
            ({
                let s = bytes_mut_view(*old(src));
                let max = old(self).max_line_len();
                match first_match(s, seq![10u8]) {
                    None => {
                        &&& bytes_mut_view(*final(src)) == s
                        &&& s.len() > max ==> (res matches Err(Error::FrameTooLarge { current, max: m })
                            && current == s.len() && m == max)
                        &&& s.len() <= max ==> res matches Ok(None)
                    },
                    Some(pos) => if pos > max {
                        &&& bytes_mut_view(*final(src)) == s
                        &&& res matches Err(Error::FrameTooLarge { current, max: m })
                        &&& current == pos && m == max
                    } else {
                        &&& bytes_mut_view(*final(src)) == s.skip(pos + 1)
                        &&& valid_utf8(line_body(s, pos)) ==> (res matches Ok(Some(line))
                            && line@ == decode_utf8(line_body(s, pos)))
                        &&& !valid_utf8(line_body(s, pos)) ==> res matches Err(Error::Decode(_))
                    },
                }
            }),
    {
        let ghost s = bytes_mut_view(*src);
        let slice = bytes_mut_as_slice(src);
        let len = slice.len();
        let found = find_byte(slice, 10u8, 0);
        assert(s.skip(0) =~= s);
        match found {
            None => {
                if len > self.max_line_len {
                    return Err(Error::FrameTooLarge { current: len, max: self.max_line_len });
                }
                Ok(None)
            },
            Some(pos) => {
                if pos > self.max_line_len {
                    return Err(Error::FrameTooLarge { current: pos, max: self.max_line_len });
                }
                let line = bytes_mut_split_to(src, pos + 1);
                let bytes = bytes_mut_as_slice(&line);
                let end = if pos > 0 && bytes[pos - 1] == 13u8 {
                    pos - 1
                } else {
                    pos
                };
                let body = slice_subrange(bytes, 0, end);
                assert(body@ =~= line_body(s, pos as int));
                match utf8_string(body) {
                    Ok(text) => Ok(Some(text)),
                    Err(message) => Err(Error::Decode(message)),
                }
            },
        }
    }
}

impl Encoder<String> for LineCodec {
    /// Appends the line's UTF-8 bytes and a newline.
    fn encode(&mut self, item: String, dst: &mut BytesMut) -> (res: Result<()>)
        ensures
            final(self).max_line_len() == old(self).max_line_len(),
            res is Ok,
            bytes_mut_view(*final(dst)) == bytes_mut_view(*old(dst)) + line_encoding(item@),
    {
        bytes_mut_extend(dst, item.as_str().as_bytes());
        let newline: [u8; 1] = [10u8];
        bytes_mut_extend(dst, newline.as_slice());
        assert(newline@ =~= seq![10u8]);
        Ok(())
    }
}

/// A character's UTF-8 bytes hold a newline or carriage-return byte only
/// when the character is that control character.
proof fn lemma_scalar_bytes(c: char)
    ensures
        forall|i: int| 0 <= i < encode_scalar(c as u32).len() ==> (#[trigger] encode_scalar(c as u32)[i] == 10u8 ==> c == '\n'),
        encode_scalar(c as u32).len() > 0,
        encode_scalar(c as u32).last() == 13u8 ==> c == '\r',
{
    let u = c as u32;
    if has_width_1_encoding(u) {
        assert(u <= 0x7f ==> ((u & 0x7F) as u8) as u32 == u) by (bit_vector);
        assert(encode_scalar(u) =~= seq![leading_byte_width_1(u)]);
    } else if has_width_2_encoding(u) {
        let a = leading_byte_width_2(u);
        let b = last_continuation_byte(u);
        assert((0xC0u8 | ((u >> 6) & 0x1F) as u8) >= 0x80) by (bit_vector);
        assert((0x80u8 | (u & 0x3F) as u8) >= 0x80) by (bit_vector);
        assert(encode_scalar(u) =~= seq![a, b]);
    } else if has_width_3_encoding(u) {
        assert((0xE0u8 | ((u >> 12) & 0x0F) as u8) >= 0x80) by (bit_vector);
        assert((0x80u8 | ((u >> 6) & 0x3F) as u8) >= 0x80) by (bit_vector);
        assert((0x80u8 | (u & 0x3F) as u8) >= 0x80) by (bit_vector);
        assert(encode_scalar(u) =~= seq![leading_byte_width_3(u), second_last_continuation_byte(u), last_continuation_byte(u)]);
    } else {
        assert((0xF0u8 | ((u >> 18) & 0x7) as u8) >= 0x80) by (bit_vector);
        assert((0x80u8 | ((u >> 12) & 0x3F) as u8) >= 0x80) by (bit_vector);
        assert((0x80u8 | ((u >> 6) & 0x3F) as u8) >= 0x80) by (bit_vector);
        assert((0x80u8 | (u & 0x3F) as u8) >= 0x80) by (bit_vector);
        assert(encode_scalar(u) =~= seq![
            leading_byte_width_4(u),
            third_last_continuation_byte(u),
            second_last_continuation_byte(u),
            last_continuation_byte(u),
        ]);
    }
}

/// Text without a newline character encodes without a newline byte.
proof fn lemma_no_newline_byte(line: Seq<char>)
    requires
        !line.contains('\n'),
    ensures
        forall|i: int| 0 <= i < encode_utf8(line).len() ==> #[trigger] encode_utf8(line)[i] != 10u8,
    decreases line.len(),
{
    if line.len() > 0 {
        let head = encode_scalar(line[0] as u32);
        let tail = line.drop_first();
        assert(!tail.contains('\n')) by {
            if tail.contains('\n') {
                let k = choose|k: int| 0 <= k < tail.len() && tail[k] == '\n';
                assert(line[k + 1] == '\n');
            }
        }
        lemma_no_newline_byte(tail);
        lemma_scalar_bytes(line[0]);
        assert forall|i: int| 0 <= i < encode_utf8(line).len() implies #[trigger] encode_utf8(line)[i] != 10u8 by {
            if i < head.len() {
                assert(encode_utf8(line)[i] == head[i]);
                assert(line[0] != '\n');
            } else {
                assert(encode_utf8(line)[i] == encode_utf8(tail)[i - head.len()]);
            }
        }
    }
}

/// The bytes of text end with those of its last character.
proof fn lemma_encode_last(line: Seq<char>)
    requires
        line.len() > 0,
    ensures
        encode_utf8(line) == encode_utf8(line.drop_last()) + encode_scalar(line.last() as u32),
    decreases line.len(),
{
    if line.len() == 1 {
        assert(line.drop_last() =~= Seq::<char>::empty());
        assert(line.drop_first() =~= Seq::<char>::empty());
        assert(encode_utf8(line.drop_first()) =~= Seq::<u8>::empty());
        assert(encode_utf8(line) =~= encode_scalar(line[0] as u32));
    } else {
        lemma_encode_last(line.drop_first());
        assert(line.drop_first().drop_last() =~= line.drop_last().drop_first());
        assert(line.drop_last()[0] == line[0]);
        assert(line.drop_first().last() == line.last());
        assert(encode_utf8(line) =~= encode_scalar(line[0] as u32) + (encode_utf8(line.drop_last().drop_first())
            + encode_scalar(line.last() as u32)));
    }
}

/// A line without a newline character, and not ending in a carriage
/// return, written by the encoder and followed by any bytes, is read back by
/// the decoder as the same line; the decoder takes exactly the line's bytes
/// and its newline, and the following bytes stay buffered.
pub proof fn lemma_line_roundtrip(line: Seq<char>, rest: Seq<u8>)
    requires
        !line.contains('\n'),
        line.len() > 0 ==> line.last() != '\r',
    ensures
        ({
            let b = encode_utf8(line);
            let s = line_encoding(line) + rest;
            &&& first_match(s, seq![10u8]) == Some(b.len() as int)
            &&& line_body(s, b.len() as int) == b
            &&& valid_utf8(b)
            &&& decode_utf8(b) == line
            &&& s.skip(b.len() as int + 1) == rest
        }),
{
    broadcast use {encode_utf8_valid_utf8, encode_utf8_decode_utf8};
    let b = encode_utf8(line);
    let s = line_encoding(line) + rest;
    lemma_no_newline_byte(line);
    assert(s.subrange(b.len() as int, b.len() as int + 1) =~= seq![10u8]);
    assert forall|j: int| 0 <= j < b.len() implies !matches_at(s, seq![10u8], j) by {
        assert(s.subrange(j, j + 1)[0] == b[j]);
    }
    assert(is_first_match(s, seq![10u8], b.len() as int));
    lemma_first_match_is(s, seq![10u8], b.len() as int);
    assert(s.take(b.len() as int) =~= b);
    if line.len() > 0 {
        lemma_encode_last(line);
        lemma_scalar_bytes(line.last());
        assert(b.last() == encode_scalar(line.last() as u32).last());
    }
    assert(s.skip(b.len() as int + 1) =~= rest);
}

} // verus!
