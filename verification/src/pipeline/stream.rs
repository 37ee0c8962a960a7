//! The TCP stream pipeline builder: `codec -> inbound* -> business* -> handler -> outbound*`.
use core::marker::PhantomData;
use vstd::prelude::*;

use crate::codec::{Decoder, Encoder};
use crate::pipeline::pipe::{BusinessPipe, Identity, InboundPipe, OutboundPipe, Then};
use crate::pipeline::{BusinessPhase, InboundPhase, Missing, Ready, Start};
use crate::traits::{Business, Handler, Inbound, Outbound};

verus! {

/// Typed TCP stream pipeline builder.
///
/// The builder encodes legal pipeline order in its type parameters. Methods
/// become available only when the previous required stage has been supplied.
/// Most type parameters track the current build phase and the message type
/// at each pipeline boundary.
pub struct PipelineBuilder<State, C, InP, BizP, H, OutP, CurrentIn, Write, CurrentOut> {
    codec: C,
    inbound: InP,
    business: BizP,
    handler: H,
    outbound: OutP,
    marker: PhantomData<(State, CurrentIn, Write, CurrentOut)>,
}

impl<State, C, InP, BizP, H, OutP, CurrentIn, Write, CurrentOut> PipelineBuilder<
    State,
    C,
    InP,
    BizP,
    H,
    OutP,
    CurrentIn,
    Write,
    CurrentOut,
> {
    /// The codec.
    pub closed spec fn spec_codec(&self) -> C {
        self.codec
    }

    /// The chain of inbound stages.
    pub closed spec fn spec_inbound(&self) -> InP {
        self.inbound
    }

    /// The chain of business stages.
    pub closed spec fn spec_business(&self) -> BizP {
        self.business
    }

    /// The handler.
    pub closed spec fn spec_handler(&self) -> H {
        self.handler
    }

    /// The chain of outbound stages.
    pub closed spec fn spec_outbound(&self) -> OutP {
        self.outbound
    }

    /// The codec, the three chains and the handler, for the runtime.
    pub fn into_parts(self) -> (r: (C, InP, BizP, H, OutP))
        ensures
            r.0 == self.spec_codec(),
            r.1 == self.spec_inbound(),
            r.2 == self.spec_business(),
            r.3 == self.spec_handler(),
            r.4 == self.spec_outbound(),
    {
        (self.codec, self.inbound, self.business, self.handler, self.outbound)
    }
}

/// Starts a typed TCP stream pipeline builder.
pub fn pipeline() -> (r: PipelineBuilder<Start, Missing, Identity, Identity, Missing, Identity, (), (), ()>) {
    PipelineBuilder {
        codec: Missing,
        inbound: Identity,
        business: Identity,
        handler: Missing,
        outbound: Identity,
        marker: PhantomData,
    }
}

impl PipelineBuilder<Start, Missing, Identity, Identity, Missing, Identity, (), (), ()> {
    /// Adds the codec and enters the inbound phase.
    pub fn codec<C>(self, codec: C) -> (r: PipelineBuilder<
        InboundPhase,
        C,
        Identity,
        Identity,
        Missing,
        Identity,
        C::Item,
        (),
        (),
    >) where C: Decoder
        ensures
            r.spec_codec() == codec,
    {
        PipelineBuilder {
            codec,
            inbound: Identity,
            business: Identity,
            handler: Missing,
            outbound: Identity,
            marker: PhantomData,
        }
    }
}

impl<C, InP, CurrentIn> PipelineBuilder<InboundPhase, C, InP, Identity, Missing, Identity, CurrentIn, (), ()> where
    C: Decoder,
    InP: InboundPipe<C::Item, Out = CurrentIn>,
    CurrentIn: Send + 'static,
 {
    /// Adds an inbound transformation stage.
    pub fn inbound<S>(self, stage: S) -> (r: PipelineBuilder<
        InboundPhase,
        C,
        Then<InP, S>,
        Identity,
        Missing,
        Identity,
        S::Out,
        (),
        (),
    >) where S: Inbound<CurrentIn>
        ensures
            r.spec_codec() == self.spec_codec(),
            r.spec_inbound().a == self.spec_inbound(),
            r.spec_inbound().b == stage,
    {
        PipelineBuilder {
            codec: self.codec,
            inbound: Then::new(self.inbound, stage),
            business: self.business,
            handler: self.handler,
            outbound: self.outbound,
            marker: PhantomData,
        }
    }

    /// Adds the first business transformation stage.
    pub fn business<B>(self, business: B) -> (r: PipelineBuilder<
        BusinessPhase,
        C,
        InP,
        Then<Identity, B>,
        Missing,
        Identity,
        B::Out,
        (),
        (),
    >) where B: Business<CurrentIn>
        ensures
            r.spec_codec() == self.spec_codec(),
            r.spec_inbound() == self.spec_inbound(),
            r.spec_business().b == business,
    {
        PipelineBuilder {
            codec: self.codec,
            inbound: self.inbound,
            business: Then::new(self.business, business),
            handler: self.handler,
            outbound: self.outbound,
            marker: PhantomData,
        }
    }

    /// Adds the final inbound handler and enters the ready/outbound phase.
    pub fn handler<H>(self, handler: H) -> (r: PipelineBuilder<
        Ready,
        C,
        InP,
        Identity,
        H,
        Identity,
        CurrentIn,
        H::Write,
        H::Write,
    >) where H: Handler<CurrentIn>
        ensures
            r.spec_codec() == self.spec_codec(),
            r.spec_inbound() == self.spec_inbound(),
            r.spec_handler() == handler,
    {
        PipelineBuilder {
            codec: self.codec,
            inbound: self.inbound,
            business: self.business,
            handler,
            outbound: self.outbound,
            marker: PhantomData,
        }
    }
}

impl<C, InP, BizP, CurrentIn> PipelineBuilder<BusinessPhase, C, InP, BizP, Missing, Identity, CurrentIn, (), ()> where
    C: Decoder,
    InP: InboundPipe<C::Item>,
    BizP: BusinessPipe<InP::Out, Out = CurrentIn>,
    CurrentIn: Send + 'static,
 {
    /// Adds another business transformation stage.
    pub fn business<B>(self, business: B) -> (r: PipelineBuilder<
        BusinessPhase,
        C,
        InP,
        Then<BizP, B>,
        Missing,
        Identity,
        B::Out,
        (),
        (),
    >) where B: Business<CurrentIn>
        ensures
            r.spec_codec() == self.spec_codec(),
            r.spec_inbound() == self.spec_inbound(),
            r.spec_business().a == self.spec_business(),
            r.spec_business().b == business,
    {
        PipelineBuilder {
            codec: self.codec,
            inbound: self.inbound,
            business: Then::new(self.business, business),
            handler: self.handler,
            outbound: self.outbound,
            marker: PhantomData,
        }
    }

    /// Adds the final inbound handler and enters the ready/outbound phase.
    pub fn handler<H>(self, handler: H) -> (r: PipelineBuilder<
        Ready,
        C,
        InP,
        BizP,
        H,
        Identity,
        CurrentIn,
        H::Write,
        H::Write,
    >) where H: Handler<CurrentIn>
        ensures
            r.spec_codec() == self.spec_codec(),
            r.spec_inbound() == self.spec_inbound(),
            r.spec_business() == self.spec_business(),
            r.spec_handler() == handler,
    {
        PipelineBuilder {
            codec: self.codec,
            inbound: self.inbound,
            business: self.business,
            handler,
            outbound: self.outbound,
            marker: PhantomData,
        }
    }
}

impl<C, InP, BizP, H, OutP, CurrentIn, Write, CurrentOut> PipelineBuilder<
    Ready,
    C,
    InP,
    BizP,
    H,
    OutP,
    CurrentIn,
    Write,
    CurrentOut,
> where CurrentOut: Send + 'static {
    /// Adds an outbound transformation stage.
    pub fn outbound<O>(self, outbound: O) -> (r: PipelineBuilder<
        Ready,
        C,
        InP,
        BizP,
        H,
        Then<OutP, O>,
        CurrentIn,
        Write,
        O::Out,
    >) where O: Outbound<CurrentOut>
        ensures
            r.spec_codec() == self.spec_codec(),
            r.spec_inbound() == self.spec_inbound(),
            r.spec_business() == self.spec_business(),
            r.spec_handler() == self.spec_handler(),
            r.spec_outbound().a == self.spec_outbound(),
            r.spec_outbound().b == outbound,
    {
        PipelineBuilder {
            codec: self.codec,
            inbound: self.inbound,
            business: self.business,
            handler: self.handler,
            outbound: Then::new(self.outbound, outbound),
            marker: PhantomData,
        }
    }
}

} // verus!
