//! Chains of stages.
use vstd::prelude::*;

use crate::traits::{Business, Inbound, Outbound};

verus! {

/// The empty chain: it hands each message on unchanged.
pub struct Identity;

/// A chain `a` followed by the stage `b`.
pub struct Then<A, B> {
    pub a: A,
    pub b: B,
}

impl<A, B> Then<A, B> {
    /// Appends the stage `b` to the chain `a`.
    pub fn new(a: A, b: B) -> (r: Self)
        ensures
            r.a == a,
            r.b == b,
    {
        Self { a, b }
    }
}

/// A chain of inbound stages reading `I`.
pub trait InboundPipe<I>: Send + 'static {
    /// What the chain hands on.
    type Out: Send + 'static;
}

impl<I: Send + 'static> InboundPipe<I> for Identity {
    type Out = I;
}

impl<I, A, B> InboundPipe<I> for Then<A, B> where
    I: Send + 'static,
    A: InboundPipe<I>,
    B: Inbound<A::Out>,
 {
    type Out = B::Out;
}

/// A chain of business stages reading `I`.
pub trait BusinessPipe<I>: Send + 'static {
    /// What the chain hands on.
    type Out: Send + 'static;
}

impl<I: Send + 'static> BusinessPipe<I> for Identity {
    type Out = I;
}

impl<I, A, B> BusinessPipe<I> for Then<A, B> where
    I: Send + 'static,
    A: BusinessPipe<I>,
    B: Business<A::Out>,
 {
    type Out = B::Out;
}

/// A chain of outbound stages reading `I`.
pub trait OutboundPipe<I>: Send + 'static {
    /// What the chain hands on.
    type Out: Send + 'static;
}

impl<I: Send + 'static> OutboundPipe<I> for Identity {
    type Out = I;
}

impl<I, A, B> OutboundPipe<I> for Then<A, B> where
    I: Send + 'static,
    A: OutboundPipe<I>,
    B: Outbound<A::Out>,
 {
    type Out = B::Out;
}

} // verus!
