//! Typed pipeline builders.
use vstd::prelude::*;

pub mod built;
pub mod datagram;
pub mod pipe;
pub mod stream;

pub use built::{DatagramPipeline, IntoDatagramPipeline, IntoPipeline, IntoStreamPipeline, StreamPipeline};
pub use datagram::{datagram_pipeline, DatagramPipelineBuilder};
pub use pipe::{BusinessPipe, Identity, InboundPipe, OutboundPipe, Then};
pub use stream::{pipeline, PipelineBuilder};

verus! {

/// Builder state before a codec is chosen.
pub struct Start;

/// Builder state in which inbound stages may be added.
pub struct InboundPhase;

/// Builder state in which business stages may be added.
pub struct BusinessPhase;

/// Builder state once the handler is set; outbound stages may be added.
pub struct Ready;

/// The place of a stage not supplied yet.
pub struct Missing;

} // verus!
