//! The error type shared by the codecs and the connection runtime.
use vstd::prelude::*;

verus! {

/// An I/O error of the standard library, carried through as it is.
#[verifier::external_type_specification]
#[verifier::external_body]
pub struct ExIoError(std::io::Error);

/// A failed Tokio task join, carried through as it is.
#[verifier::external_type_specification]
#[verifier::external_body]
pub struct ExJoinError(tokio::task::JoinError);

/// Error type returned by the codecs and the framework's own checks.
#[derive(Debug)]
pub enum Error {
    /// Underlying I/O error.
    Io(std::io::Error),
    /// Tokio task join failed.
    Join(tokio::task::JoinError),
    /// Connection or socket is closed.
    Closed,
    /// Command channel is closed.
    ChannelClosed,
    /// Stream frame exceeded the configured limit.
    FrameTooLarge { current: usize, max: usize },
    /// Datagram payload exceeded the configured limit.
    DatagramTooLarge { current: usize, max: usize },
    /// Decoder returned an error.
    Decode(String),
    /// Encoder returned an error.
    Encode(String),
    /// Pipeline stage returned a framework-level error.
    Pipeline(String),
    /// Datagram write required a default peer but none was available.
    MissingDatagramPeer,
}

/// Convenience result alias for rs-netty operations.
pub type Result<T> = core::result::Result<T, Error>;

} // verus!
