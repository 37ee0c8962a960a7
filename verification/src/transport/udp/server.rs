//! The UDP server builder.
use vstd::prelude::*;

use crate::life::NoLife;
use crate::transport::udp::config::{normalized, udp_config_default, UdpSocketConfig};
use crate::transport::{at_least_one, at_least_one_exec};

verus! {

/// Marker used before a UDP server pipeline has been configured.
pub struct NoPipeline;

/// Builder for a UDP server socket.
pub struct UdpServer<F = NoPipeline, L = NoLife> {
    addr: String,
    pipeline_factory: F,
    config: UdpSocketConfig,
    life: L,
}

impl<F, L> UdpServer<F, L> {
    /// The address to bind.
    pub closed spec fn spec_addr(&self) -> Seq<char> {
        self.addr@
    }

    /// The pipeline factory.
    pub closed spec fn spec_pipeline(&self) -> F {
        self.pipeline_factory
    }

    /// The connection configuration.
    pub closed spec fn spec_config(&self) -> UdpSocketConfig {
        self.config
    }

    /// The lifecycle hooks.
    pub closed spec fn spec_life(&self) -> L {
        self.life
    }

    /// The parts the runtime starts from.
    pub fn into_parts(self) -> (r: (String, F, UdpSocketConfig, L))
        ensures
            r.0@ == self.spec_addr(),
            r.1 == self.spec_pipeline(),
            r.2 == self.spec_config(),
            r.3 == self.spec_life(),
    {
        (self.addr, self.pipeline_factory, self.config, self.life)
    }

    /// Sets the receive buffer size used by the socket task.
    pub fn read_buffer_capacity(self, value: usize) -> (r: Self)
        ensures
            r.spec_config() == (normalized(UdpSocketConfig { read_buffer_capacity: value, ..self.spec_config() })),
            r.spec_addr() == self.spec_addr(),
            r.spec_pipeline() == self.spec_pipeline(),
            r.spec_life() == self.spec_life(),
    {
        let mut s = self;
        s.config.read_buffer_capacity = value;
        s.config.normalize();
        s
    }

    /// Sets the initial write buffer capacity.
    pub fn write_buffer_capacity(self, value: usize) -> (r: Self)
        ensures
            r.spec_config() == (UdpSocketConfig { write_buffer_capacity: value, ..self.spec_config() }),
            r.spec_addr() == self.spec_addr(),
            r.spec_pipeline() == self.spec_pipeline(),
            r.spec_life() == self.spec_life(),
    {
        let mut s = self;
        s.config.write_buffer_capacity = value;
        s
    }

    /// Sets the maximum accepted datagram payload size.
    pub fn max_datagram_size(self, value: usize) -> (r: Self)
        ensures
            r.spec_config() == (normalized(UdpSocketConfig { max_datagram_size: value, ..self.spec_config() })),
            r.spec_addr() == self.spec_addr(),
            r.spec_pipeline() == self.spec_pipeline(),
            r.spec_life() == self.spec_life(),
    {
        let mut s = self;
        s.config.max_datagram_size = value;
        s.config.normalize();
        s
    }

    /// Sets the bounded outbound command queue size (at least one).
    pub fn outbound_queue_size(self, value: usize) -> (r: Self)
        ensures
            r.spec_config() == (UdpSocketConfig { outbound_queue_size: at_least_one(value), ..self.spec_config() }),
            r.spec_addr() == self.spec_addr(),
            r.spec_pipeline() == self.spec_pipeline(),
            r.spec_life() == self.spec_life(),
    {
        let mut s = self;
        s.config.outbound_queue_size = at_least_one_exec(value);
        s
    }

}

impl UdpServer<NoPipeline, NoLife> {
    /// Creates a UDP server builder bound to the provided local address.
    pub fn bind(addr: &str) -> (r: Self)
        ensures
            r.spec_addr() == addr@,
            r.spec_config() == udp_config_default(),
    {
        Self { addr: addr.to_owned(), pipeline_factory: NoPipeline, config: UdpSocketConfig::default(), life: NoLife }
    }
}

impl<L> UdpServer<NoPipeline, L> {
    /// Sets the socket pipeline factory.
    pub fn pipeline<F>(self, factory: F) -> (r: UdpServer<F, L>)
        ensures
            r.spec_addr() == self.spec_addr(),
            r.spec_pipeline() == factory,
            r.spec_config() == self.spec_config(),
            r.spec_life() == self.spec_life(),
    {
        UdpServer { addr: self.addr, pipeline_factory: factory, config: self.config, life: self.life }
    }
}

impl<F, L> UdpServer<F, L> {
    /// Attaches lifecycle hooks.
    pub fn life<NextLife>(self, life: NextLife) -> (r: UdpServer<F, NextLife>)
        ensures
            r.spec_addr() == self.spec_addr(),
            r.spec_pipeline() == self.spec_pipeline(),
            r.spec_config() == self.spec_config(),
            r.spec_life() == life,
    {
        UdpServer { addr: self.addr, pipeline_factory: self.pipeline_factory, config: self.config, life }
    }
}

} // verus!
