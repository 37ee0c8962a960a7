//! UDP socket runtime configuration.
use vstd::prelude::*;

verus! {

/// UDP socket runtime configuration.
#[derive(Clone)]
pub struct UdpSocketConfig {
    /// Receive buffer size in bytes used by the socket task.
    ///
    /// The runtime normalizes this to at least [`Self::max_datagram_size`] so a
    /// configured maximum datagram can fit in the receive buffer.
    pub read_buffer_capacity: usize,
    /// Initial write buffer capacity in bytes.
    pub write_buffer_capacity: usize,
    /// Maximum accepted datagram payload size in bytes.
    ///
    /// Oversized datagrams are rejected before the datagram pipeline runs.
    pub max_datagram_size: usize,
    /// Bounded outbound command queue size for writes sent through channels.
    pub outbound_queue_size: usize,
}

/// The larger of two sizes.
pub open spec fn larger(a: usize, b: usize) -> usize {
    if a < b {
        b
    } else {
        a
    }
}

/// A configuration after [`UdpSocketConfig::normalize`]: a maximum datagram
/// of at least one byte and a receive buffer that holds one.
pub open spec fn normalized(c: UdpSocketConfig) -> UdpSocketConfig {
    let max_datagram_size = larger(c.max_datagram_size, 1);
    UdpSocketConfig {
        max_datagram_size,
        read_buffer_capacity: larger(larger(c.read_buffer_capacity, max_datagram_size), 1),
        ..c
    }
}

impl UdpSocketConfig {
    /// Raises the maximum datagram size to at least one and the receive
    /// buffer to at least the maximum datagram size.
    pub fn normalize(&mut self)
        ensures
            *final(self) == normalized(*old(self)),
    {
        if self.max_datagram_size < 1 {
            self.max_datagram_size = 1;
        }
        if self.read_buffer_capacity < self.max_datagram_size {
            self.read_buffer_capacity = self.max_datagram_size;
        }
        if self.read_buffer_capacity < 1 {
            self.read_buffer_capacity = 1;
        }
    }
}

/// The default configuration.
pub open spec fn udp_config_default() -> UdpSocketConfig {
    UdpSocketConfig {
        read_buffer_capacity: 65536,
        write_buffer_capacity: 8192,
        max_datagram_size: 65536,
        outbound_queue_size: 1024,
    }
}

impl Default for UdpSocketConfig {
    /// 64 KiB receive buffer and datagram limit, 8 KiB write buffer, a queue of 1024.
    fn default() -> (r: Self)
        ensures
            r == udp_config_default(),
    {
        Self {
            read_buffer_capacity: 65536,
            write_buffer_capacity: 8192,
            max_datagram_size: 65536,
            outbound_queue_size: 1024,
        }
    }
}

/// After normalizing, a maximum datagram is at least one byte and fits the
/// receive buffer, and normalizing again changes nothing.
pub proof fn lemma_normalized(c: UdpSocketConfig)
    ensures
        normalized(c).max_datagram_size >= 1,
        normalized(c).read_buffer_capacity >= normalized(c).max_datagram_size,
        normalized(normalized(c)) == normalized(c),
{
}

} // verus!
