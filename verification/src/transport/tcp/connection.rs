//! The decisions of a TCP connection: why it closes, and which failure
//! an error of each stage becomes.
use vstd::prelude::*;

use crate::life::CloseReason;
use crate::Error;

verus! {

/// A connection that stopped on an error: the close reason reported to the
/// lifecycle hooks, and the error returned to the caller.
#[derive(Debug)]
pub struct ConnectionFailure {
    pub reason: CloseReason,
    pub error: Error,
}

/// The close reason of a decode error: a decode error or an oversized frame
/// keep their own reason, an I/O error is an I/O failure, anything else is
/// a handler error.
pub open spec fn decode_reason(error: Error) -> CloseReason {
    match error {
        Error::Decode(_) => CloseReason::DecodeError,
        Error::FrameTooLarge { .. } => CloseReason::FrameTooLarge,
        Error::Io(_) => CloseReason::IoError,
        _ => CloseReason::HandlerError,
    }
}

/// The close reason of an error of the outbound stages or the encoder.
pub open spec fn outbound_reason(error: Error) -> CloseReason {
    match error {
        Error::Encode(_) => CloseReason::EncodeError,
        Error::Io(_) => CloseReason::IoError,
        Error::FrameTooLarge { .. } => CloseReason::FrameTooLarge,
        _ => CloseReason::HandlerError,
    }
}

/// The close reason of an error of the inbound stages or the handler.
pub open spec fn handler_reason(error: Error) -> CloseReason {
    match error {
        Error::Decode(_) => CloseReason::DecodeError,
        Error::Encode(_) => CloseReason::EncodeError,
        Error::Io(_) => CloseReason::IoError,
        Error::FrameTooLarge { .. } => CloseReason::FrameTooLarge,
        _ => CloseReason::HandlerError,
    }
}

/// A failure with the given reason and error.
pub fn failure(reason: CloseReason, error: Error) -> (r: ConnectionFailure)
    ensures
        r.reason == reason,
        r.error == error,
{
    ConnectionFailure { reason, error }
}

/// The failure of a decode error.
pub fn decode_failure(error: Error) -> (r: ConnectionFailure)
    ensures
        r.reason == decode_reason(error),
        r.error == error,
{
    let reason = match &error {
        Error::Decode(_) => CloseReason::DecodeError,
        Error::FrameTooLarge { .. } => CloseReason::FrameTooLarge,
        Error::Io(_) => CloseReason::IoError,
        _ => CloseReason::HandlerError,
    };
    failure(reason, error)
}

/// The failure of an error of the outbound stages or the encoder.
pub fn outbound_failure(error: Error) -> (r: ConnectionFailure)
    ensures
        r.reason == outbound_reason(error),
        r.error == error,
{
    let reason = match &error {
        Error::Encode(_) => CloseReason::EncodeError,
        Error::Io(_) => CloseReason::IoError,
        Error::FrameTooLarge { .. } => CloseReason::FrameTooLarge,
        _ => CloseReason::HandlerError,
    };
    failure(reason, error)
}

/// The failure of an error of the inbound stages or the handler.
pub fn handler_failure(error: Error) -> (r: ConnectionFailure)
    ensures
        r.reason == handler_reason(error),
        r.error == error,
{
    let reason = match &error {
        Error::Decode(_) => CloseReason::DecodeError,
        Error::Encode(_) => CloseReason::EncodeError,
        Error::Io(_) => CloseReason::IoError,
        Error::FrameTooLarge { .. } => CloseReason::FrameTooLarge,
        _ => CloseReason::HandlerError,
    };
    failure(reason, error)
}

/// What the connection loop sees, apart from a read.
#[derive(Clone, Copy, Debug, PartialEq, Eq, Structural)]
pub enum LoopEvent {
    /// The owning server asked every connection to stop.
    ShutdownRequested,
    /// No read arrived within the idle timeout.
    IdleTimeoutElapsed,
    /// The handler asked, through its context, to close.
    HandlerRequestedClose,
    /// A command to write a message, with or without a flush.
    WriteCommand,
    /// A command to close the connection.
    CloseCommand,
    /// Every command sender was dropped.
    CommandQueueClosed,
}

/// The reason the connection closes on `event`, or `None` when it goes on:
/// only a write command lets it go on.
pub open spec fn event_close_reason(event: LoopEvent) -> Option<CloseReason> {
    match event {
        LoopEvent::ShutdownRequested => Some(CloseReason::ServerShutdown),
        LoopEvent::IdleTimeoutElapsed => Some(CloseReason::IdleTimeout),
        LoopEvent::HandlerRequestedClose => Some(CloseReason::HandlerClosed),
        LoopEvent::WriteCommand => None,
        LoopEvent::CloseCommand => Some(CloseReason::LocalClosed),
        LoopEvent::CommandQueueClosed => Some(CloseReason::ChannelClosed),
    }
}

/// The step of the connection loop on `event`, as [`event_close_reason`]
/// describes.
pub fn on_event(event: LoopEvent) -> (r: Option<CloseReason>)
    ensures
        r == event_close_reason(event),
{
    match event {
        LoopEvent::ShutdownRequested => Some(CloseReason::ServerShutdown),
        LoopEvent::IdleTimeoutElapsed => Some(CloseReason::IdleTimeout),
        LoopEvent::HandlerRequestedClose => Some(CloseReason::HandlerClosed),
        LoopEvent::WriteCommand => None,
        LoopEvent::CloseCommand => Some(CloseReason::LocalClosed),
        LoopEvent::CommandQueueClosed => Some(CloseReason::ChannelClosed),
    }
}

/// What a connection does after a read of `read_len` bytes left `buffered`
/// bytes in its read buffer: a read of nothing means the peer closed; a
/// buffer above `max_frame_size` fails the connection with an oversized
/// frame; otherwise the buffered bytes are decoded (`Ok(None)`).
pub fn after_read(read_len: usize, buffered: usize, max_frame_size: usize) -> (r: core::result::Result<
    Option<CloseReason>,
    ConnectionFailure,
>)
    ensures
        read_len == 0 ==> r == Ok::<Option<CloseReason>, ConnectionFailure>(Some(CloseReason::PeerClosed)),
        read_len != 0 && buffered > max_frame_size ==> (r matches Err(f) && f.reason == CloseReason::FrameTooLarge
            && f.error == (Error::FrameTooLarge { current: buffered, max: max_frame_size })),
        read_len != 0 && buffered <= max_frame_size ==> r == Ok::<Option<CloseReason>, ConnectionFailure>(None),
{
    if read_len == 0 {
        return Ok(Some(CloseReason::PeerClosed));
    }
    if buffered > max_frame_size {
        return Err(failure(CloseReason::FrameTooLarge, Error::FrameTooLarge { current: buffered, max: max_frame_size }));
    }
    Ok(None)
}

} // verus!
