//! Connection lifecycle: why a connection stops, and the default hooks.
use vstd::prelude::*;

verus! {

/// Reason a TCP connection stopped.
#[derive(Clone, Copy, Debug, PartialEq, Eq, Structural)]
pub enum CloseReason {
    /// The peer closed the TCP stream.
    PeerClosed,
    /// The local channel requested close.
    LocalClosed,
    /// All command senders were dropped.
    ChannelClosed,
    /// The handler requested close through its context.
    HandlerClosed,
    /// The owning server requested shutdown.
    ServerShutdown,
    /// The configured idle timeout elapsed.
    IdleTimeout,
    /// An I/O error occurred.
    IoError,
    /// Decoding failed.
    DecodeError,
    /// Encoding failed.
    EncodeError,
    /// Buffered frame size exceeded the configured maximum.
    FrameTooLarge,
    /// A handler or pipeline stage returned an error.
    HandlerError,
}

/// Default lifecycle hooks: every hook does nothing.
#[derive(Clone, Copy, Debug, Default)]
pub struct NoLife;

} // verus!
