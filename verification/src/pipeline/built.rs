//! Finished pipelines: what a complete builder becomes for the runtime.
use core::marker::PhantomData;
use vstd::prelude::*;

use crate::codec::{DatagramDecoder, DatagramEncoder, Decoder, Encoder};
use crate::pipeline::datagram::DatagramPipelineBuilder;
use crate::pipeline::pipe::{BusinessPipe, InboundPipe, OutboundPipe};
use crate::pipeline::stream::PipelineBuilder;
use crate::pipeline::Ready;
use crate::traits::{DatagramHandler, Handler};

verus! {

/// A typed TCP stream pipeline: the codec, the three chains of stages and
/// the handler, with the message types at its boundaries.
///
/// Applications normally construct this through [`crate::pipeline()`] instead
/// of naming the type directly.
pub struct StreamPipeline<C, InP, BizP, H, OutP, CurrentIn, Write, CurrentOut> {
    pub codec: C,
    pub inbound: InP,
    pub business: BizP,
    pub handler: H,
    pub outbound: OutP,
    pub marker: PhantomData<(CurrentIn, Write, CurrentOut)>,
}

/// A typed UDP datagram pipeline.
///
/// Applications normally construct this through
/// [`crate::datagram_pipeline()`] instead of naming the type directly.
pub struct DatagramPipeline<C, InP, BizP, H, OutP, CurrentIn, Write, CurrentOut> {
    pub codec: C,
    pub inbound: InP,
    pub business: BizP,
    pub handler: H,
    pub outbound: OutP,
    pub marker: PhantomData<(CurrentIn, Write, CurrentOut)>,
}

/// A builder that is complete becomes a stream pipeline.
pub trait IntoStreamPipeline {
    /// Concrete pipeline produced by this builder.
    type Pipeline;

    /// The pipeline that this builder becomes.
    spec fn built(self) -> Self::Pipeline;

    /// Converts the builder into its pipeline.
    fn into_stream_pipeline(self) -> (r: Self::Pipeline)
        ensures
            r == self.built(),
    ;
}

/// Compatibility conversion trait for stream pipelines.
pub trait IntoPipeline {
    /// Concrete pipeline produced by this builder.
    type Pipeline;

    /// Converts the builder into its pipeline.
    fn into_pipeline(self) -> Self::Pipeline;
}

impl<T> IntoPipeline for T where T: IntoStreamPipeline {
    type Pipeline = T::Pipeline;

    /// The same pipeline as the stream conversion gives.
    fn into_pipeline(self) -> (r: Self::Pipeline)
        ensures
            r == self.built(),
    {
        self.into_stream_pipeline()
    }
}

/// A builder that is complete becomes a datagram pipeline.
pub trait IntoDatagramPipeline {
    /// Concrete pipeline produced by this builder.
    type Pipeline;

    /// Converts the builder into its pipeline.
    fn into_datagram_pipeline(self) -> Self::Pipeline;
}

impl<C, InP, BizP, H, OutP, CurrentIn, Write, CurrentOut> IntoStreamPipeline for PipelineBuilder<
    Ready,
    C,
    InP,
    BizP,
    H,
    OutP,
    CurrentIn,
    Write,
    CurrentOut,
> where
    C: Decoder + Encoder<CurrentOut>,
    InP: InboundPipe<C::Item>,
    BizP: BusinessPipe<InP::Out, Out = CurrentIn>,
    H: Handler<CurrentIn, Write = Write>,
    OutP: OutboundPipe<Write, Out = CurrentOut>,
    CurrentIn: Send + 'static,
    Write: Send + 'static,
    CurrentOut: Send + 'static,
 {
    type Pipeline = StreamPipeline<C, InP, BizP, H, OutP, CurrentIn, Write, CurrentOut>;

    open spec fn built(self) -> Self::Pipeline {
        StreamPipeline {
            codec: self.spec_codec(),
            inbound: self.spec_inbound(),
            business: self.spec_business(),
            handler: self.spec_handler(),
            outbound: self.spec_outbound(),
            marker: PhantomData,
        }
    }

    /// The pipeline holds the builder's codec, chains and handler.
    fn into_stream_pipeline(self) -> (r: Self::Pipeline)
        ensures
            r.codec == self.spec_codec(),
            r.inbound == self.spec_inbound(),
            r.business == self.spec_business(),
            r.handler == self.spec_handler(),
            r.outbound == self.spec_outbound(),
    {
        let (codec, inbound, business, handler, outbound) = self.into_parts();
        StreamPipeline { codec, inbound, business, handler, outbound, marker: PhantomData }
    }
}

impl<C, InP, BizP, H, OutP, CurrentIn, Write, CurrentOut> IntoDatagramPipeline for DatagramPipelineBuilder<
    Ready,
    C,
    InP,
    BizP,
    H,
    OutP,
    CurrentIn,
    Write,
    CurrentOut,
> where
    C: DatagramDecoder + DatagramEncoder<CurrentOut>,
    InP: InboundPipe<C::Item>,
    BizP: BusinessPipe<InP::Out, Out = CurrentIn>,
    H: DatagramHandler<CurrentIn, Write = Write>,
    OutP: OutboundPipe<Write, Out = CurrentOut>,
    CurrentIn: Send + 'static,
    Write: Send + 'static,
    CurrentOut: Send + 'static,
 {
    type Pipeline = DatagramPipeline<C, InP, BizP, H, OutP, CurrentIn, Write, CurrentOut>;

    /// The pipeline holds the builder's codec, chains and handler.
    fn into_datagram_pipeline(self) -> (r: Self::Pipeline)
        ensures
            r.codec == self.spec_codec(),
            r.inbound == self.spec_inbound(),
            r.business == self.spec_business(),
            r.handler == self.spec_handler(),
            r.outbound == self.spec_outbound(),
    {
        let (codec, inbound, business, handler, outbound) = self.into_parts();
        DatagramPipeline { codec, inbound, business, handler, outbound, marker: PhantomData }
    }
}

} // verus!
