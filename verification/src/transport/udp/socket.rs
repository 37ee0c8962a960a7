//! The decisions of a UDP socket task: how large its receive buffer is, and
//! which datagrams it refuses.
use vstd::prelude::*;

use crate::transport::udp::config::{larger, UdpSocketConfig};
use crate::{Error, Result};

verus! {

/// The length of the receive buffer of a socket task: the configured
/// capacity, raised to hold a maximum datagram, and at least one byte.
pub fn receive_buffer_len(config: &UdpSocketConfig) -> (r: usize)
    ensures
        r == larger(larger(config.read_buffer_capacity, config.max_datagram_size), 1),
        r >= 1,
        r >= config.max_datagram_size,
{
    let mut len = config.read_buffer_capacity;
    if len < config.max_datagram_size {
        len = config.max_datagram_size;
    }
    if len < 1 {
        len = 1;
    }
    len
}

/// A datagram of `read_len` bytes is refused when it is larger than
/// `max_datagram_size`, before the pipeline runs.
pub fn check_datagram_len(read_len: usize, max_datagram_size: usize) -> (res: Result<()>)
    ensures
        read_len <= max_datagram_size ==> res is Ok,
        read_len > max_datagram_size ==> (res matches Err(Error::DatagramTooLarge { current, max })
            && current == read_len && max == max_datagram_size),
{
    if read_len > max_datagram_size {
        return Err(Error::DatagramTooLarge { current: read_len, max: max_datagram_size });
    }
    Ok(())
}

} // verus!
