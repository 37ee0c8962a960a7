//! TCP connection runtime configuration.
use core::time::Duration;
use vstd::prelude::*;

verus! {

/// TCP connection runtime configuration.
///
/// The same settings are used by accepted server connections and client
/// connections.
#[derive(Clone)]
pub struct TcpConnectionConfig {
    /// Initial read buffer capacity in bytes.
    ///
    /// The buffer can grow as more bytes are read, but a connection is
    /// closed if buffered data exceeds [`Self::max_frame_size`] before the
    /// codec can produce a frame.
    pub read_buffer_capacity: usize,
    /// Initial write buffer capacity in bytes.
    ///
    /// Encoded outbound frames are accumulated here before being written to the
    /// socket.
    pub write_buffer_capacity: usize,
    /// Maximum buffered frame size before closing the connection.
    pub max_frame_size: usize,
    /// Bounded outbound command queue size for writes sent through channels.
    pub outbound_queue_size: usize,
    /// Whether `TCP_NODELAY` is enabled.
    pub tcp_nodelay: bool,
    /// Optional timeout for closing a connection after no reads are received.
    ///
    /// Outbound writes do not reset this timer.
    pub idle_timeout: Option<Duration>,
    /// Whether byte and frame counters are collected for the connection.
    ///
    /// Disabled by default so applications that do not need stats avoid the
    /// shared counter allocations and atomic updates.
    pub track_connection_stats: bool,
}

/// The default configuration.
pub open spec fn tcp_config_default() -> TcpConnectionConfig {
    TcpConnectionConfig {
        read_buffer_capacity: 8192,
        write_buffer_capacity: 8192,
        max_frame_size: 1048576,
        outbound_queue_size: 1024,
        tcp_nodelay: true,
        idle_timeout: None,
        track_connection_stats: false,
    }
}

impl Default for TcpConnectionConfig {
    /// 8 KiB buffers, a 1 MiB frame limit, a queue of 1024, `TCP_NODELAY`,
    /// no idle timeout and no stats.
    fn default() -> (r: Self)
        ensures
            r == tcp_config_default(),
    {
        Self {
            read_buffer_capacity: 8192,
            write_buffer_capacity: 8192,
            max_frame_size: 1048576,
            outbound_queue_size: 1024,
            tcp_nodelay: true,
            idle_timeout: None,
            track_connection_stats: false,
        }
    }
}

} // verus!
