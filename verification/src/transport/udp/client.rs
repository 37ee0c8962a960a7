//! The UDP client builder.
use vstd::prelude::*;

use crate::life::NoLife;
use crate::transport::udp::config::{normalized, udp_config_default, UdpSocketConfig};
use crate::transport::{at_least_one, at_least_one_exec};

verus! {

/// Marker used before a UDP client pipeline has been configured.
pub struct NoPipeline;

/// Builder for a UDP client socket.
pub struct UdpClient<F = NoPipeline, L = NoLife> {
    remote_addr: String,
    local_addr: String,
    pipeline_factory: F,
    config: UdpSocketConfig,
    life: L,
}

impl<F, L> UdpClient<F, L> {
    /// The default peer address.
    pub closed spec fn spec_addr(&self) -> Seq<char> {
        self.remote_addr@
    }

    /// The local address to bind.
    pub closed spec fn spec_local_addr(&self) -> Seq<char> {
        self.local_addr@
    }

    /// The pipeline factory.
    pub closed spec fn spec_pipeline(&self) -> F {
        self.pipeline_factory
    }

    /// The socket configuration.
    pub closed spec fn spec_config(&self) -> UdpSocketConfig {
        self.config
    }

    /// The lifecycle hooks.
    pub closed spec fn spec_life(&self) -> L {
        self.life
    }

    /// The parts the runtime starts from.
    pub fn into_parts(self) -> (r: (String, String, F, UdpSocketConfig, L))
        ensures
            r.0@ == self.spec_addr(),
            r.1@ == self.spec_local_addr(),
            r.2 == self.spec_pipeline(),
            r.3 == self.spec_config(),
            r.4 == self.spec_life(),
    {
        (self.remote_addr, self.local_addr, self.pipeline_factory, self.config, self.life)
    }

    /// Sets the receive buffer size used by the socket task.
    pub fn read_buffer_capacity(self, value: usize) -> (r: Self)
        ensures
            r.spec_config() == (normalized(UdpSocketConfig { read_buffer_capacity: value, ..self.spec_config() })),
            r.spec_local_addr() == self.spec_local_addr(),
            r.spec_addr() == self.spec_addr(),
            r.spec_pipeline() == self.spec_pipeline(),
            r.spec_life() == self.spec_life(),
    {
        let mut s = self;
        s.config.read_buffer_capacity = value;
        s.config.normalize();
        s
    }

    /// Sets the initial write buffer capacity.
    pub fn write_buffer_capacity(self, value: usize) -> (r: Self)
        ensures
            r.spec_config() == (UdpSocketConfig { write_buffer_capacity: value, ..self.spec_config() }),
            r.spec_local_addr() == self.spec_local_addr(),
            r.spec_addr() == self.spec_addr(),
            r.spec_pipeline() == self.spec_pipeline(),
            r.spec_life() == self.spec_life(),
    {
        let mut s = self;
        s.config.write_buffer_capacity = value;
        s
    }

    /// Sets the maximum accepted datagram payload size.
    pub fn max_datagram_size(self, value: usize) -> (r: Self)
        ensures
            r.spec_config() == (normalized(UdpSocketConfig { max_datagram_size: value, ..self.spec_config() })),
            r.spec_local_addr() == self.spec_local_addr(),
            r.spec_addr() == self.spec_addr(),
            r.spec_pipeline() == self.spec_pipeline(),
            r.spec_life() == self.spec_life(),
    {
        let mut s = self;
        s.config.max_datagram_size = value;
        s.config.normalize();
        s
    }

    /// Sets the bounded outbound command queue size (at least one).
    pub fn outbound_queue_size(self, value: usize) -> (r: Self)
        ensures
            r.spec_config() == (UdpSocketConfig { outbound_queue_size: at_least_one(value), ..self.spec_config() }),
            r.spec_local_addr() == self.spec_local_addr(),
            r.spec_addr() == self.spec_addr(),
            r.spec_pipeline() == self.spec_pipeline(),
            r.spec_life() == self.spec_life(),
    {
        let mut s = self;
        s.config.outbound_queue_size = at_least_one_exec(value);
        s
    }

    /// Binds the client socket to a local address.
    pub fn bind(self, local_addr: &str) -> (r: Self)
        ensures
            r.spec_config() == self.spec_config(),
            r.spec_local_addr() == local_addr@,
            r.spec_addr() == self.spec_addr(),
            r.spec_pipeline() == self.spec_pipeline(),
            r.spec_life() == self.spec_life(),
    {
        let mut s = self;
        s.local_addr = local_addr.to_owned();
        s
    }

}

impl UdpClient<NoPipeline, NoLife> {
    /// Creates a UDP client builder for a default peer; it binds `0.0.0.0:0`
    /// unless told otherwise.
    pub fn connect(remote_addr: &str) -> (r: Self)
        ensures
            r.spec_addr() == remote_addr@,
            r.spec_local_addr() == "0.0.0.0:0"@,
            r.spec_config() == udp_config_default(),
    {
        Self {
            remote_addr: remote_addr.to_owned(),
            local_addr: "0.0.0.0:0".to_owned(),
            pipeline_factory: NoPipeline,
            config: UdpSocketConfig::default(),
            life: NoLife,
        }
    }
}

impl<L> UdpClient<NoPipeline, L> {
    /// Sets the socket pipeline factory.
    pub fn pipeline<F>(self, factory: F) -> (r: UdpClient<F, L>)
        ensures
            r.spec_addr() == self.spec_addr(),
            r.spec_local_addr() == self.spec_local_addr(),
            r.spec_pipeline() == factory,
            r.spec_config() == self.spec_config(),
            r.spec_life() == self.spec_life(),
    {
        UdpClient {
            remote_addr: self.remote_addr,
            local_addr: self.local_addr,
            pipeline_factory: factory,
            config: self.config,
            life: self.life,
        }
    }
}

impl<F, L> UdpClient<F, L> {
    /// Attaches lifecycle hooks.
    pub fn life<NextLife>(self, life: NextLife) -> (r: UdpClient<F, NextLife>)
        ensures
            r.spec_addr() == self.spec_addr(),
            r.spec_local_addr() == self.spec_local_addr(),
            r.spec_pipeline() == self.spec_pipeline(),
            r.spec_config() == self.spec_config(),
            r.spec_life() == life,
    {
        UdpClient {
            remote_addr: self.remote_addr,
            local_addr: self.local_addr,
            pipeline_factory: self.pipeline_factory,
            config: self.config,
            life,
        }
    }
}

} // verus!
