//! Pipeline stages: what each stage reads and what it hands on.
//!
//! A stage is known here by its message types. How it processes a message
//! (an `async` method) is the runtime's part; these traits are what the
//! typed builders check stage order and message transitions against.
use vstd::prelude::*;

verus! {

/// Result of an inbound, business, or outbound stage.
///
/// `Next` forwards the transformed message to the next stage. `Stop` consumes
/// the message and stops processing for that direction.
pub enum Flow<T> {
    /// Continue the pipeline with this message.
    Next(T),
    /// Stop processing this message without treating it as an error.
    Stop,
}

impl<T> Flow<T> {
    /// Maps the contained `Next` value while preserving `Stop`.
    pub fn map<U, F: FnOnce(T) -> U>(self, f: F) -> (r: Flow<U>)
        requires
            self matches Flow::Next(v) ==> f.requires((v,)),
        ensures
            match self {
                Flow::Next(v) => r matches Flow::Next(u) && f.ensures((v,), u),
                Flow::Stop => r is Stop,
            },
    {
        match self {
            Flow::Next(value) => Flow::Next(f(value)),
            Flow::Stop => Flow::Stop,
        }
    }
}

/// Inbound transformation stage for decoded messages of type `I`.
///
/// Implement this trait when a stage should validate, filter, or transform a
/// message before it reaches the business stages or final handler.
pub trait Inbound<I>: Send + 'static {
    /// Message type forwarded to the next stage.
    type Out: Send + 'static;
}

/// Middle pipeline stage for application-level transformations.
pub trait Business<I>: Send + 'static {
    /// Message type forwarded to the next stage.
    type Out: Send + 'static;
}

/// Final TCP handler for inbound messages of type `I`.
///
/// A handler receives the fully transformed inbound message and writes values
/// of type [`Self::Write`] back through the outbound side of the pipeline.
pub trait Handler<I>: Send + 'static {
    /// Application message type accepted by the handler's context.
    type Write: Send + 'static;
}

/// Final UDP handler for inbound datagrams of type `I`.
pub trait DatagramHandler<I>: Send + 'static {
    /// Application message type accepted by the handler's datagram context.
    type Write: Send + 'static;
}

/// Outbound transformation stage for application writes of type `I`.
pub trait Outbound<I>: Send + 'static {
    /// Message type forwarded to the next outbound stage or final encoder.
    type Out: Send + 'static;
}

} // verus!
