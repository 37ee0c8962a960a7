//! Byte buffers of the `bytes` crate, as the codecs see them.
//!
//! A `BytesMut` is the read or write buffer of a connection and a `Bytes` is
//! an immutable frame. Their contents are named below; each wrapper states
//! what the `bytes` method does to those contents.
use bytes::{Bytes, BytesMut};
use vstd::prelude::*;

verus! {

#[verifier::external_type_specification]
#[verifier::external_body]
pub struct ExBytesMut(BytesMut);

#[verifier::external_type_specification]
#[verifier::external_body]
pub struct ExBytes(Bytes);

/// The bytes held by a `BytesMut`, first to last.
pub uninterp spec fn bytes_mut_view(b: BytesMut) -> Seq<u8>;

/// The bytes held by a `Bytes`, first to last.
pub uninterp spec fn bytes_view(b: Bytes) -> Seq<u8>;

/// `BytesMut::new`: an empty buffer.
#[verifier::external_body]
pub(crate) fn bytes_mut_new() -> (r: BytesMut)
    ensures
        bytes_mut_view(r) == Seq::<u8>::empty(),
{
    BytesMut::new()
}

/// Dereferencing a `BytesMut` (`Deref<Target = [u8]>`): the slice of its contents.
#[verifier::external_body]
pub(crate) fn bytes_mut_as_slice(b: &BytesMut) -> (s: &[u8])
    ensures
        s@ == bytes_mut_view(*b),
{
    b.as_ref()
}

/// `BytesMut::split_to(at)`: hands out the first `at` bytes and keeps the rest.
/// The method panics when `at` exceeds the length; `requires` leaves that out.
#[verifier::external_body]
pub(crate) fn bytes_mut_split_to(b: &mut BytesMut, at: usize) -> (r: BytesMut)
    requires
        at <= bytes_mut_view(*old(b)).len(),
    ensures
        bytes_mut_view(r) == bytes_mut_view(*old(b)).take(at as int),
        bytes_mut_view(*final(b)) == bytes_mut_view(*old(b)).skip(at as int),
{
    b.split_to(at)
}

/// `BytesMut::split`: hands out every byte and leaves the buffer empty.
#[verifier::external_body]
pub(crate) fn bytes_mut_split(b: &mut BytesMut) -> (r: BytesMut)
    ensures
        bytes_mut_view(r) == bytes_mut_view(*old(b)),
        bytes_mut_view(*final(b)) == Seq::<u8>::empty(),
{
    b.split()
}

/// `BytesMut::extend_from_slice`: appends the slice. Like `Vec::push` in
/// vstd, the allocation it may make is not modelled (a failed allocation
/// aborts the process).
#[verifier::external_body]
pub(crate) fn bytes_mut_extend(b: &mut BytesMut, s: &[u8])
    ensures
        bytes_mut_view(*final(b)) == bytes_mut_view(*old(b)) + s@,
{
    b.extend_from_slice(s)
}

/// `BytesMut::freeze`: the same bytes as an immutable `Bytes`.
#[verifier::external_body]
pub(crate) fn bytes_mut_freeze(b: BytesMut) -> (r: Bytes)
    ensures
        bytes_view(r) == bytes_mut_view(b),
{
    b.freeze()
}

/// `Bytes::clone`: another handle to the same bytes.
pub assume_specification[ <Bytes as Clone>::clone ](b: &Bytes) -> (r: Bytes)
    ensures
        bytes_view(r) == bytes_view(*b),
;

/// `Bytes::new`: an empty `Bytes`.
#[verifier::external_body]
pub(crate) fn bytes_new() -> (r: Bytes)
    ensures
        bytes_view(r) == Seq::<u8>::empty(),
{
    Bytes::new()
}

/// Dereferencing a `Bytes` (`Deref<Target = [u8]>`): the slice of its contents.
#[verifier::external_body]
pub(crate) fn bytes_as_slice(b: &Bytes) -> (s: &[u8])
    ensures
        s@ == bytes_view(*b),
{
    b.as_ref()
}

/// `Bytes::copy_from_slice`: a `Bytes` holding a copy of the slice.
#[verifier::external_body]
pub(crate) fn bytes_copy_from_slice(s: &[u8]) -> (r: Bytes)
    ensures
        bytes_view(r) == s@,
{
    Bytes::copy_from_slice(s)
}

/// `Bytes::slice(start..end)`: another handle to the bytes in that range.
/// The method panics when the range is out of bounds; `requires` leaves
/// that out.
#[verifier::external_body]
pub(crate) fn bytes_slice(b: &Bytes, start: usize, end: usize) -> (r: Bytes)
    requires
        start <= end <= bytes_view(*b).len(),
    ensures
        bytes_view(r) == bytes_view(*b).subrange(start as int, end as int),
{
    b.slice(start..end)
}

} // verus!
