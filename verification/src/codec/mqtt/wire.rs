//! MQTT wire primitives: fixed-width integers, length-prefixed strings and
//! binary data, and variable byte integers.
use bytes::{Bytes, BytesMut};
use vstd::prelude::*;
use vstd::slice::slice_subrange;
use vstd::utf8::{decode_utf8, encode_utf8, valid_utf8};

use crate::buf::{bytes_as_slice, bytes_copy_from_slice, bytes_mut_extend, bytes_mut_view, bytes_view};
use crate::text::{message_with_number, message_with_text, owned, u16_from_usize, utf8_string};
use crate::uint::{be_value, lemma_be_bound, lemma_pow256_facts, pow256, read_uint, uint_bytes};
use crate::{Error, Result};

verus! {

/// Skipping twice is skipping the sum.
pub broadcast proof fn lemma_skip_skip(s: Seq<u8>, a: int, b: int)
    requires
        0 <= a,
        0 <= b,
        a + b <= s.len(),
    ensures
        #[trigger] s.skip(a).skip(b) == s.skip(a + b),
{
    assert(s.skip(a).skip(b) =~= s.skip(a + b));
}

/// A variable byte integer that reads takes one to four bytes of the input.
pub proof fn lemma_sp_varint_len(s: Seq<u8>)
    ensures
        sp_varint(s) matches Some((v, k)) ==> 1 <= k <= 4 && k <= s.len() && v < pow128(4),
{
    lemma_varint_scan_len(s, 0);
    if let VarintScan::Complete { len } = varint_scan(s, 0) {
        lemma_varint_value_bound(s, len as nat);
        lemma_pow128_mono(len as nat, 4);
    }
}

/// A complete variable byte integer takes one to four bytes and its value
/// is below `128^4`.
pub proof fn lemma_varint_complete(s: Seq<u8>)
    ensures
        varint_scan(s, 0) matches VarintScan::Complete { len } ==> 1 <= len <= 4 && len <= s.len()
            && varint_value(s, len as nat) < pow128(4),
{
    lemma_varint_scan_len(s, 0);
    if let VarintScan::Complete { len } = varint_scan(s, 0) {
        lemma_varint_value_bound(s, len as nat);
        lemma_pow128_mono(len as nat, 4);
    }
}

proof fn lemma_varint_scan_len(s: Seq<u8>, i: nat)
    ensures
        varint_scan(s, i) matches VarintScan::Complete { len } ==> i < len <= 4 && len <= s.len(),
    decreases 4 - i,
{
    if i < 4 && i < s.len() && s[i as int] >= 128 {
        lemma_varint_scan_len(s, i + 1);
    }
}

/// The largest value of a variable byte integer (and of a Remaining Length).
pub const MAX_REMAINING_LENGTH: usize = 268435455;

/// `128` raised to `n`.
pub open spec fn pow128(n: nat) -> nat
    decreases n,
{
    if n == 0 {
        1
    } else {
        128 * pow128((n - 1) as nat)
    }
}

/// How the first bytes of `s` end a variable byte integer, scanning from index `i`.
pub ghost enum VarintScan {
    /// The integer ends with the byte before index `len`.
    Complete { len: int },
    /// The bytes run out before the integer ends.
    Incomplete,
    /// Four bytes all ask for a continuation.
    Malformed,
}

/// Scans a variable byte integer from index `i`: it ends at the first byte
/// below `0x80`, within four bytes.
pub open spec fn varint_scan(s: Seq<u8>, i: nat) -> VarintScan
    decreases 4 - i,
{
    if i >= 4 {
        VarintScan::Malformed
    } else if i >= s.len() {
        VarintScan::Incomplete
    } else if s[i as int] < 128 {
        VarintScan::Complete { len: i + 1 as int }
    } else {
        varint_scan(s, i + 1)
    }
}

/// The value of the first `k` bytes of a variable byte integer: the low
/// seven bits of byte `i` count `128^i` times.
pub open spec fn varint_value(s: Seq<u8>, k: nat) -> nat
    decreases k,
{
    if k == 0 {
        0
    } else {
        varint_value(s, (k - 1) as nat) + (s[k - 1] % 128) as nat * pow128((k - 1) as nat)
    }
}

/// How many bytes the minimal encoding of `v` takes.
pub open spec fn varint_size(v: nat) -> nat
    decreases v,
{
    if v < 128 {
        1
    } else {
        1 + varint_size(v / 128)
    }
}

/// The minimal encoding of `v`: seven bits per byte, least significant
/// first, with the high bit set on every byte but the last.
pub open spec fn varint_encoding(v: nat) -> Seq<u8>
    decreases v,
{
    if v < 128 {
        seq![v as u8]
    } else {
        seq![(v % 128 + 128) as u8] + varint_encoding(v / 128)
    }
}

/// Reading a variable byte integer: its value and length when it is
/// complete and minimally encoded.
pub open spec fn sp_varint(s: Seq<u8>) -> Option<(nat, int)> {
    match varint_scan(s, 0) {
        VarintScan::Complete { len } => {
            let v = varint_value(s, len as nat);
            if varint_size(v) == len {
                Some((v, len))
            } else {
                None
            }
        },
        _ => None,
    }
}

/// Reading one byte.
pub open spec fn sp_u8(s: Seq<u8>) -> Option<(u8, int)> {
    if s.len() >= 1 {
        Some((s[0], 1))
    } else {
        None
    }
}

/// Reading a big-endian two-byte integer.
pub open spec fn sp_u16(s: Seq<u8>) -> Option<(u16, int)> {
    if s.len() >= 2 {
        Some((be_value(s.take(2)) as u16, 2))
    } else {
        None
    }
}

/// Reading a big-endian four-byte integer.
pub open spec fn sp_u32(s: Seq<u8>) -> Option<(u32, int)> {
    if s.len() >= 4 {
        Some((be_value(s.take(4)) as u32, 4))
    } else {
        None
    }
}

/// Reading binary data: a two-byte length, then that many bytes.
pub open spec fn sp_binary(s: Seq<u8>) -> Option<(Seq<u8>, int)> {
    match sp_u16(s) {
        Some((n, _)) => if s.len() >= 2 + n {
            Some((s.subrange(2, 2 + n), 2 + n))
        } else {
            None
        },
        None => None,
    }
}

/// Reading a UTF-8 string: binary data that must be valid UTF-8.
pub open spec fn sp_string(s: Seq<u8>) -> Option<(Seq<char>, int)> {
    match sp_binary(s) {
        Some((b, k)) => if valid_utf8(b) {
            Some((decode_utf8(b), k))
        } else {
            None
        },
        None => None,
    }
}

/// The two bytes of `v`, most significant first.
pub open spec fn enc_u16(v: u16) -> Seq<u8> {
    seq![(v / 256) as u8, (v % 256) as u8]
}

/// The four bytes of `v`, most significant first.
pub open spec fn enc_u32(v: u32) -> Seq<u8> {
    seq![(v / 0x100_0000) as u8, ((v / 0x1_0000) % 256) as u8, ((v / 256) % 256) as u8, (v % 256) as u8]
}

/// Binary data with its two-byte length, when the length fits.
pub open spec fn enc_binary(b: Seq<u8>) -> Option<Seq<u8>> {
    if b.len() <= 65535 {
        Some(enc_u16(b.len() as u16) + b)
    } else {
        None
    }
}

/// A UTF-8 string with its two-byte length, when the length fits.
pub open spec fn enc_string(c: Seq<char>) -> Option<Seq<u8>> {
    enc_binary(encode_utf8(c))
}

/// A variable byte integer, when `v` is at most the maximum.
pub open spec fn enc_varint(v: nat) -> Option<Seq<u8>> {
    if v <= MAX_REMAINING_LENGTH {
        Some(varint_encoding(v))
    } else {
        None
    }
}

/// Concatenation of two encodings that may each have failed.
pub open spec fn cat(a: Option<Seq<u8>>, b: Option<Seq<u8>>) -> Option<Seq<u8>> {
    match (a, b) {
        (Some(x), Some(y)) => Some(x + y),
        _ => None,
    }
}

pub proof fn lemma_pow128_facts(n: nat)
    ensures
        pow128(n) >= 1,
        pow128(0) == 1,
        pow128(1) == 128,
        pow128(2) == 16384,
        pow128(3) == 2097152,
        pow128(4) == 268435456,
    decreases n,
{
    reveal_with_fuel(pow128, 5);
    if n > 0 {
        lemma_pow128_facts((n - 1) as nat);
    }
}

/// The first `k` bytes of a variable byte integer have a value below `128^k`.
pub proof fn lemma_varint_value_bound(s: Seq<u8>, k: nat)
    requires
        k <= s.len(),
    ensures
        varint_value(s, k) < pow128(k),
    decreases k,
{
    if k > 0 {
        lemma_varint_value_bound(s, (k - 1) as nat);
        let v = varint_value(s, (k - 1) as nat);
        let p = pow128((k - 1) as nat);
        let b = (s[k - 1] % 128) as nat;
        assert(v + b * p < 128 * p) by (nonlinear_arith)
            requires
                v < p,
                b < 128,
        ;
    }
}

/// Bytes past the first `k` do not change the value of the first `k`.
pub proof fn lemma_varint_value_prefix(s: Seq<u8>, t: Seq<u8>, k: nat)
    requires
        k <= s.len(),
        k <= t.len(),
        s.take(k as int) == t.take(k as int),
    ensures
        varint_value(s, k) == varint_value(t, k),
    decreases k,
{
    if k > 0 {
        assert(s[k - 1] == s.take(k as int)[k - 1]);
        assert(t[k - 1] == t.take(k as int)[k - 1]);
        assert(s.take(k - 1) =~= s.take(k as int).take(k - 1));
        assert(t.take(k - 1) =~= t.take(k as int).take(k - 1));
        lemma_varint_value_prefix(s, t, (k - 1) as nat);
    }
}

/// `v` fits the size its encoding claims.
pub proof fn lemma_varint_size_bound(v: nat)
    ensures
        varint_size(v) >= 1,
        v < pow128(varint_size(v)),
    decreases v,
{
    lemma_pow128_facts(1);
    if v >= 128 {
        lemma_varint_size_bound(v / 128);
        let n = varint_size(v / 128);
        assert(varint_size(v) == 1 + n);
        assert(pow128(n + 1) == 128 * pow128(n));
        assert(v < 128 * pow128(n)) by (nonlinear_arith)
            requires
                v / 128 < pow128(n),
                v >= 0,
        ;
    }
}

/// Values up to the maximum take at most four bytes.
pub proof fn lemma_varint_size_max(v: nat)
    requires
        v <= MAX_REMAINING_LENGTH,
    ensures
        1 <= varint_size(v) <= 4,
{
    lemma_varint_size_bound(v);
    if v >= 128 {
        lemma_varint_size_lower(v);
        let n = varint_size(v);
        if n > 4 {
            lemma_pow128_mono(4, (n - 1) as nat);
            lemma_pow128_facts(4);
        }
    }
}

proof fn lemma_pow128_mono(a: nat, b: nat)
    requires
        a <= b,
    ensures
        pow128(a) <= pow128(b),
    decreases b,
{
    if a < b {
        lemma_pow128_mono(a, (b - 1) as nat);
        lemma_pow128_facts((b - 1) as nat);
    }
}

/// A value of `varint_size(v)` bytes is at least `128^(size - 1)`.
proof fn lemma_varint_size_lower(v: nat)
    requires
        v >= 128,
    ensures
        varint_size(v) >= 2,
        pow128((varint_size(v) - 1) as nat) <= v,
    decreases v,
{
    lemma_pow128_facts(1);
    assert(varint_size(v) == 1 + varint_size(v / 128));
    if v / 128 >= 128 {
        lemma_varint_size_lower(v / 128);
        let n = varint_size(v / 128);
        assert(pow128((n + 1 - 1) as nat) == 128 * pow128((n - 1) as nat));
        assert(128 * pow128((n - 1) as nat) <= v) by (nonlinear_arith)
            requires
                pow128((n - 1) as nat) <= v / 128,
        ;
    }
}

/// Any `u64` takes at most ten bytes.
proof fn lemma_varint_size_u64(v: nat)
    requires
        v <= u64::MAX,
    ensures
        varint_size(v) <= 10,
{
    if v >= 128 {
        lemma_varint_size_lower(v);
        let n = varint_size(v);
        if n > 10 {
            lemma_pow128_mono(10, (n - 1) as nat);
            reveal_with_fuel(pow128, 11);
            assert(pow128(10) == 0x40_0000_0000_0000_0000);
        }
    }
}

/// The size of the minimal encoding of `value` (`remaining_length_len`).
pub fn remaining_length_len(value: usize) -> (len: usize)
    ensures
        len == varint_size(value as nat),
{
    let mut v = value;
    let mut len: usize = 1;
    proof {
        lemma_varint_size_u64(value as nat);
    }
    while v >= 128
        invariant
            len + varint_size(v as nat) == 1 + varint_size(value as nat),
            len >= 1,
            varint_size(value as nat) <= 10,
        decreases v,
    {
        proof {
            lemma_varint_size_bound((v / 128) as nat);
        }
        v = v / 128;
        len = len + 1;
    }
    len
}


/// `remaining_length_len(value) != encoded_len` makes the integer non-minimal.
pub fn validate_variable_integer_encoding(value: usize, encoded_len: usize) -> (res: Result<()>)
    ensures
        varint_size(value as nat) == encoded_len ==> res is Ok,
        varint_size(value as nat) != encoded_len ==> (res matches Err(Error::Decode(_))),
{
    if remaining_length_len(value) != encoded_len {
        return Err(Error::Decode(owned("MQTT variable byte integer is not minimally encoded")));
    }
    Ok(())
}

/// Decodes the Remaining Length that follows the fixed header byte:
/// `Ok(None)` while it is incomplete, an error when it is malformed or not
/// minimal, else its value and length.
pub fn decode_remaining_length_prefix(src: &[u8]) -> (res: Result<Option<(usize, usize)>>)
    ensures
        match varint_scan(src@, 0) {
            VarintScan::Incomplete => res matches Ok(None),
            VarintScan::Malformed => res matches Err(Error::Decode(_)),
            VarintScan::Complete { len } => {
                let v = varint_value(src@, len as nat);
                &&& varint_size(v) == len ==> res == Ok::<Option<(usize, usize)>, Error>(Some((v as usize, len as usize)))
                &&& varint_size(v) != len ==> (res matches Err(Error::Decode(_)))
            },
        },
{
    let mut multiplier: usize = 1;
    let mut value: usize = 0;
    let mut index: usize = 0;
    proof {
        lemma_pow128_facts(4);
    }
    while index < 4 && index < src.len()
        invariant
            0 <= index <= 4,
            index <= src@.len(),
            multiplier == pow128(index as nat),
            value == varint_value(src@, index as nat),
            value < pow128(index as nat),
            varint_scan(src@, 0) == varint_scan(src@, index as nat),
            pow128(4) == 268435456,
        decreases 4 - index,
    {
        let encoded = src[index];
        proof {
            lemma_pow128_facts(index as nat);
            lemma_pow128_mono(index as nat, 3);
        }
        assert((encoded & 0x7f) == encoded % 128) by (bit_vector);
        let low = encoded & 0x7f;
        proof {
            lemma_pow128_mono((index + 1) as nat, 4);
            assert(pow128((index + 1) as nat) == 128 * pow128(index as nat));
            assert((low as int) * multiplier + value < 128 * multiplier) by (nonlinear_arith)
                requires
                    value < multiplier,
                    low < 128,
            ;
        }
        value = value + (low as usize) * multiplier;
        proof {
            lemma_varint_value_bound(src@, (index + 1) as nat);
        }
        assert((encoded & 0x80 == 0) == (encoded < 128)) by (bit_vector);
        if encoded & 0x80 == 0 {
            match validate_variable_integer_encoding(value, index + 1) {
                Ok(()) => {},
                Err(err) => return Err(err),
            }
            return Ok(Some((value, index + 1)));
        }
        multiplier = multiplier * 128;
        index = index + 1;
    }
    if src.len() >= 4 {
        return Err(Error::Decode(owned("malformed MQTT Remaining Length")));
    }
    Ok(None)
}

/// A cursor over a packet body.
pub(crate) struct Reader<'src> {
    pub(crate) src: &'src [u8],
    pub(crate) pos: usize,
}

impl<'src> Reader<'src> {
    /// The bytes not read yet.
    pub(crate) open spec fn rest(&self) -> Seq<u8> {
        self.src@.skip(self.pos as int)
    }

    /// The position never passes the end.
    pub(crate) open spec fn wf(&self) -> bool {
        self.pos <= self.src@.len()
    }

    /// A reader at the start of `src`.
    pub(crate) fn new(src: &'src [u8]) -> (r: Self)
        ensures
            r.wf(),
            r.src == src,
            r.pos == 0,
            r.rest() == src@,
    {
        let r = Self { src, pos: 0 };
        assert(r.rest() =~= src@);
        r
    }

    /// How many bytes are left.
    pub(crate) fn remaining(&self) -> (n: usize)
        requires
            self.wf(),
        ensures
            n == self.rest().len(),
    {
        self.src.len() - self.pos
    }

    /// The next `len` bytes; refused when fewer are left.
    pub(crate) fn read_exact(&mut self, len: usize) -> (res: Result<&'src [u8]>)
        requires
            old(self).wf(),
        ensures
            final(self).wf(),
            final(self).src == old(self).src,
            old(self).rest().len() >= len ==> (res matches Ok(b) && b@ == old(self).rest().take(len as int)
                && final(self).rest() == old(self).rest().skip(len as int)),
            old(self).rest().len() < len ==> (res matches Err(Error::Decode(_))
                && final(self).rest() == old(self).rest()),
    {
        let n = self.src.len();
        if n - self.pos < len {
            let need = message_with_number("unexpected end of MQTT packet: need ", len as u64);
            let remaining = message_with_number(", remaining ", (n - self.pos) as u64);
            return Err(Error::Decode(message_with_text(need.as_str(), remaining.as_str())));
        }
        let start = self.pos;
        self.pos = self.pos + len;
        let out = slice_subrange(self.src, start, self.pos);
        proof {
            assert(out@ =~= old(self).rest().take(len as int));
            assert(self.rest() =~= old(self).rest().skip(len as int));
        }
        Ok(out)
    }

    /// One byte.
    pub(crate) fn read_u8(&mut self) -> (res: Result<u8>)
        requires
            old(self).wf(),
        ensures
            final(self).wf(),
            final(self).src == old(self).src,
            match sp_u8(old(self).rest()) {
                Some((v, k)) => res == Ok::<u8, Error>(v) && final(self).rest() == old(self).rest().skip(k),
                None => res matches Err(Error::Decode(_)),
            },
    {
        let bytes = self.read_exact(1)?;
        Ok(bytes[0])
    }

    /// A big-endian two-byte integer.
    pub(crate) fn read_u16(&mut self) -> (res: Result<u16>)
        requires
            old(self).wf(),
        ensures
            final(self).wf(),
            final(self).src == old(self).src,
            match sp_u16(old(self).rest()) {
                Some((v, k)) => res == Ok::<u16, Error>(v) && final(self).rest() == old(self).rest().skip(k),
                None => res matches Err(Error::Decode(_)),
            },
    {
        let bytes = self.read_exact(2)?;
        let v = read_uint(bytes, 0, 2, true);
        proof {
            assert(bytes@.subrange(0, 2) =~= bytes@);
            lemma_be_bound(bytes@);
            lemma_pow256_facts(2);
        }
        Ok(v as u16)
    }

    /// A big-endian four-byte integer.
    pub(crate) fn read_u32(&mut self) -> (res: Result<u32>)
        requires
            old(self).wf(),
        ensures
            final(self).wf(),
            final(self).src == old(self).src,
            match sp_u32(old(self).rest()) {
                Some((v, k)) => res == Ok::<u32, Error>(v) && final(self).rest() == old(self).rest().skip(k),
                None => res matches Err(Error::Decode(_)),
            },
    {
        let bytes = self.read_exact(4)?;
        let v = read_uint(bytes, 0, 4, true);
        proof {
            assert(bytes@.subrange(0, 4) =~= bytes@);
            lemma_be_bound(bytes@);
            lemma_pow256_facts(4);
        }
        Ok(v as u32)
    }

    /// A length-prefixed UTF-8 string.
    pub(crate) fn read_utf8_string(&mut self) -> (res: Result<String>)
        requires
            old(self).wf(),
        ensures
            final(self).wf(),
            final(self).src == old(self).src,
            match sp_string(old(self).rest()) {
                Some((v, k)) => (res matches Ok(s) && s@ == v) && final(self).rest() == old(self).rest().skip(k),
                None => res matches Err(Error::Decode(_)),
            },
    {
        let ghost r0 = self.rest();
        let len = self.read_u16()? as usize;
        let bytes = self.read_exact(len)?;
        proof {
            assert(bytes@ =~= r0.subrange(2, 2 + len));
            assert(self.rest() =~= r0.skip(2 + len));
        }
        match utf8_string(bytes) {
            Ok(text) => Ok(text),
            Err(message) => Err(Error::Decode(message)),
        }
    }

    /// Length-prefixed binary data.
    pub(crate) fn read_binary_data(&mut self) -> (res: Result<Bytes>)
        requires
            old(self).wf(),
        ensures
            final(self).wf(),
            final(self).src == old(self).src,
            match sp_binary(old(self).rest()) {
                Some((v, k)) => (res matches Ok(b) && bytes_view(b) == v) && final(self).rest() == old(self).rest().skip(k),
                None => res matches Err(Error::Decode(_)),
            },
    {
        let ghost r0 = self.rest();
        let len = self.read_u16()? as usize;
        let bytes = self.read_exact(len)?;
        proof {
            assert(bytes@ =~= r0.subrange(2, 2 + len));
            assert(self.rest() =~= r0.skip(2 + len));
        }
        Ok(bytes_copy_from_slice(bytes))
    }

    /// A variable byte integer of at most four bytes, minimally encoded.
    pub(crate) fn read_variable_integer(&mut self) -> (res: Result<u32>)
        requires
            old(self).wf(),
        ensures
            final(self).wf(),
            final(self).src == old(self).src,
            match sp_varint(old(self).rest()) {
                Some((v, k)) => res == Ok::<u32, Error>(v as u32) && v < pow128(4)
                    && final(self).rest() == old(self).rest().skip(k),
                None => res matches Err(Error::Decode(_)),
            },
    {
        let ghost r0 = self.rest();
        let mut multiplier: u32 = 1;
        let mut value: u32 = 0;
        let mut index: u32 = 0;
        proof {
            lemma_pow128_facts(4);
        }
        while index < 4
            invariant
                0 <= index <= 4,
                self.wf(),
                self.src == old(self).src,
                r0 == old(self).rest(),
                index <= r0.len(),
                self.rest() == r0.skip(index as int),
                multiplier == pow128(index as nat),
                value == varint_value(r0, index as nat),
                value < pow128(index as nat),
                varint_scan(r0, 0) == varint_scan(r0, index as nat),
                pow128(4) == 268435456,
            decreases 4 - index,
        {
            let ghost before = self.rest();
            let encoded = match self.read_u8() {
                Ok(b) => b,
                Err(err) => {
                    proof {
                        assert(varint_scan(r0, index as nat) == VarintScan::Incomplete);
                    }
                    return Err(err);
                },
            };
            proof {
                assert(encoded == r0[index as int]);
                assert(self.rest() =~= r0.skip(index + 1));
                lemma_pow128_facts(index as nat);
                lemma_pow128_mono(index as nat, 3);
            }
            assert((encoded & 0x7f) == encoded % 128) by (bit_vector);
            let low = encoded & 0x7f;
            proof {
                lemma_pow128_mono((index + 1) as nat, 4);
                assert(pow128((index + 1) as nat) == 128 * pow128(index as nat));
                assert((low as int) * multiplier + value < 128 * multiplier) by (nonlinear_arith)
                    requires
                        value < multiplier,
                        low < 128,
                ;
            }
            value = value + (low as u32) * multiplier;
            proof {
                lemma_varint_value_bound(r0, (index + 1) as nat);
            }
            assert((encoded & 0x80 == 0) == (encoded < 128)) by (bit_vector);
            if encoded & 0x80 == 0 {
                match validate_variable_integer_encoding(value as usize, (index + 1) as usize) {
                    Ok(()) => {},
                    Err(err) => return Err(err),
                }
                return Ok(value);
            }
            multiplier = multiplier * 128;
            index = index + 1;
        }
        Err(Error::Decode(owned("malformed MQTT variable integer")))
    }

    /// Everything that is left, copied.
    pub(crate) fn read_remaining_bytes(&mut self) -> (b: Bytes)
        requires
            old(self).wf(),
        ensures
            final(self).wf(),
            final(self).src == old(self).src,
            bytes_view(b) == old(self).rest(),
            final(self).rest() == Seq::<u8>::empty(),
    {
        let out = bytes_copy_from_slice(slice_subrange(self.src, self.pos, self.src.len()));
        self.pos = self.src.len();
        proof {
            assert(self.rest() =~= Seq::<u8>::empty());
        }
        out
    }
}

/// Appends one byte.
pub fn write_u8(value: u8, dst: &mut BytesMut)
    ensures
        bytes_mut_view(*final(dst)) == bytes_mut_view(*old(dst)) + seq![value],
{
    let bytes: [u8; 1] = [value];
    bytes_mut_extend(dst, bytes.as_slice());
    assert(bytes@ =~= seq![value]);
}

/// Appends two bytes, most significant first.
pub fn write_u16(value: u16, dst: &mut BytesMut)
    ensures
        bytes_mut_view(*final(dst)) == bytes_mut_view(*old(dst)) + enc_u16(value),
{
    let bytes: [u8; 2] = [(value / 256) as u8, (value % 256) as u8];
    bytes_mut_extend(dst, bytes.as_slice());
    assert(bytes@ =~= enc_u16(value));
}

/// Appends four bytes, most significant first.
pub fn write_u32(value: u32, dst: &mut BytesMut)
    ensures
        bytes_mut_view(*final(dst)) == bytes_mut_view(*old(dst)) + enc_u32(value),
{
    let bytes: [u8; 4] = [
        (value / 0x100_0000) as u8,
        ((value / 0x1_0000) % 256) as u8,
        ((value / 256) % 256) as u8,
        (value % 256) as u8,
    ];
    bytes_mut_extend(dst, bytes.as_slice());
    assert(bytes@ =~= enc_u32(value));
}

/// Appends a length-prefixed UTF-8 string; refused when longer than 65535 bytes.
pub fn write_utf8_string(value: &str, dst: &mut BytesMut) -> (res: Result<()>)
    ensures
        match enc_string(value@) {
            Some(b) => res is Ok && bytes_mut_view(*final(dst)) == bytes_mut_view(*old(dst)) + b,
            None => res matches Err(Error::Encode(_)),
        },
{
    let bytes = value.as_bytes();
    let len = match u16_from_usize(bytes.len()) {
        Ok(len) => len,
        Err(message) => return Err(Error::Encode(message)),
    };
    write_u16(len, dst);
    bytes_mut_extend(dst, bytes);
    Ok(())
}

/// Appends length-prefixed binary data; refused when longer than 65535 bytes.
pub fn write_binary_data(value: &Bytes, dst: &mut BytesMut) -> (res: Result<()>)
    ensures
        match enc_binary(bytes_view(*value)) {
            Some(b) => res is Ok && bytes_mut_view(*final(dst)) == bytes_mut_view(*old(dst)) + b,
            None => res matches Err(Error::Encode(_)),
        },
{
    let bytes = bytes_as_slice(value);
    let len = match u16_from_usize(bytes.len()) {
        Ok(len) => len,
        Err(message) => return Err(Error::Encode(message)),
    };
    write_u16(len, dst);
    bytes_mut_extend(dst, bytes);
    Ok(())
}

/// Appends a variable byte integer; refused above the maximum.
pub fn write_variable_integer(value: u32, dst: &mut BytesMut) -> (res: Result<()>)
    ensures
        match enc_varint(value as nat) {
            Some(b) => res is Ok && bytes_mut_view(*final(dst)) == bytes_mut_view(*old(dst)) + b,
            None => res matches Err(Error::Encode(_)) && bytes_mut_view(*final(dst)) == bytes_mut_view(*old(dst)),
        },
{
    if value as usize > MAX_REMAINING_LENGTH {
        return Err(Error::Encode(message_with_number("MQTT variable integer too large: ", value as u64)));
    }
    let ghost before = bytes_mut_view(*dst);
    let mut cur = value;
    loop
        invariant_except_break
            bytes_mut_view(*dst).len() >= before.len(),
            bytes_mut_view(*dst).take(before.len() as int) == before,
            bytes_mut_view(*dst).skip(before.len() as int) + varint_encoding(cur as nat)
                == varint_encoding(value as nat),
        ensures
            bytes_mut_view(*dst) == before + varint_encoding(value as nat),
        decreases cur,
    {
        let ghost written = bytes_mut_view(*dst);
        let mut encoded = (cur % 128) as u8;
        let next = cur / 128;
        if next > 0 {
            assert(encoded < 128 ==> (encoded | 0x80) == encoded + 128) by (bit_vector);
            encoded = encoded | 0x80;
        }
        write_u8(encoded, dst);
        proof {
            let now = bytes_mut_view(*dst);
            assert(now.take(before.len() as int) =~= written.take(before.len() as int));
            assert(now.skip(before.len() as int) =~= written.skip(before.len() as int) + seq![encoded]);
            if cur >= 128 {
                assert(varint_encoding(cur as nat) == seq![encoded] + varint_encoding(next as nat));
                assert(now.skip(before.len() as int) + varint_encoding(next as nat)
                    =~= written.skip(before.len() as int) + varint_encoding(cur as nat));
            } else {
                assert(varint_encoding(cur as nat) == seq![encoded]);
                assert(now =~= before + varint_encoding(value as nat));
            }
        }
        if next == 0 {
            break;
        }
        cur = next;
    }
    Ok(())
}

} // verus!
