//! JSON pipeline stages.
//!
//! `JsonDecode<T>` turns the `String` or `Bytes` frames of a framing codec
//! (such as [`crate::codec::LineCodec`]) into `T`; `JsonEncode<T>` renders
//! `T` as a compact JSON `String`. The parsing and rendering are done by the
//! `sonic-rs` crate in the runtime; here the stages are known by the message
//! types they read and hand on.
use bytes::Bytes;
use core::marker::PhantomData;
use vstd::prelude::*;

use crate::traits::{Inbound, Outbound};

verus! {

/// Inbound JSON decoder stage backed by `sonic-rs`.
///
/// This stage keeps framing separate from JSON parsing. Use it after a codec
/// such as [`crate::codec::LineCodec`] or
/// [`crate::codec::LengthFieldBasedFrameDecoder`].
pub struct JsonDecode<T> {
    marker: PhantomData<T>,
}

impl<T> JsonDecode<T> {
    /// Creates a JSON decoder stage.
    ///
    /// The input is provided by the preceding framing codec. This stage accepts
    /// both `String` and `bytes::Bytes` and produces `T` when deserialization
    /// succeeds.
    pub fn new() -> (r: Self) {
        Self { marker: PhantomData }
    }
}

impl<T> Default for JsonDecode<T> {
    fn default() -> (r: Self) {
        Self::new()
    }
}

impl<T: Send + 'static> Inbound<String> for JsonDecode<T> {
    type Out = T;
}

impl<T: Send + 'static> Inbound<Bytes> for JsonDecode<T> {
    type Out = T;
}

/// Outbound JSON encoder stage backed by `sonic-rs`.
///
/// The stage serializes typed messages into compact JSON strings. Pair it with
/// a framing codec that accepts `String`, such as [`crate::codec::LineCodec`].
pub struct JsonEncode<T> {
    marker: PhantomData<T>,
}

impl<T> JsonEncode<T> {
    /// Creates a JSON encoder stage.
    ///
    /// The output is a compact JSON `String` that is forwarded to the next
    /// outbound stage or final stream encoder.
    pub fn new() -> (r: Self) {
        Self { marker: PhantomData }
    }
}

impl<T> Default for JsonEncode<T> {
    fn default() -> (r: Self) {
        Self::new()
    }
}

impl<T: Send + 'static> Outbound<T> for JsonEncode<T> {
    type Out = String;
}

} // verus!
