//! The TCP server builder.
use vstd::prelude::*;

use crate::life::NoLife;
use crate::transport::tcp::config::{tcp_config_default, TcpConnectionConfig};
use crate::transport::{at_least_one, at_least_one_exec};

verus! {

/// Marker used before a TCP server pipeline has been configured.
pub struct NoPipeline;

/// Builder for a TCP server.
pub struct TcpServer<F = NoPipeline, L = NoLife> {
    addr: String,
    pipeline_factory: F,
    config: TcpConnectionConfig,
    life: L,
}

impl<F, L> TcpServer<F, L> {
    /// The address to bind.
    pub closed spec fn spec_addr(&self) -> Seq<char> {
        self.addr@
    }

    /// The pipeline factory.
    pub closed spec fn spec_pipeline(&self) -> F {
        self.pipeline_factory
    }

    /// The connection configuration.
    pub closed spec fn spec_config(&self) -> TcpConnectionConfig {
        self.config
    }

    /// The lifecycle hooks.
    pub closed spec fn spec_life(&self) -> L {
        self.life
    }

    /// The parts the runtime starts from.
    pub fn into_parts(self) -> (r: (String, F, TcpConnectionConfig, L))
        ensures
            r.0@ == self.spec_addr(),
            r.1 == self.spec_pipeline(),
            r.2 == self.spec_config(),
            r.3 == self.spec_life(),
    {
        (self.addr, self.pipeline_factory, self.config, self.life)
    }

    /// Sets the initial read buffer capacity.
    pub fn read_buffer_capacity(self, value: usize) -> (r: Self)
        ensures
            r.spec_config() == (TcpConnectionConfig { read_buffer_capacity: value, ..self.spec_config() }),
            r.spec_addr() == self.spec_addr(),
            r.spec_pipeline() == self.spec_pipeline(),
            r.spec_life() == self.spec_life(),
    {
        let mut s = self;
        s.config.read_buffer_capacity = value;
        s
    }

    /// Sets the initial write buffer capacity.
    pub fn write_buffer_capacity(self, value: usize) -> (r: Self)
        ensures
            r.spec_config() == (TcpConnectionConfig { write_buffer_capacity: value, ..self.spec_config() }),
            r.spec_addr() == self.spec_addr(),
            r.spec_pipeline() == self.spec_pipeline(),
            r.spec_life() == self.spec_life(),
    {
        let mut s = self;
        s.config.write_buffer_capacity = value;
        s
    }

    /// Sets the maximum buffered frame size.
    pub fn max_frame_size(self, value: usize) -> (r: Self)
        ensures
            r.spec_config() == (TcpConnectionConfig { max_frame_size: value, ..self.spec_config() }),
            r.spec_addr() == self.spec_addr(),
            r.spec_pipeline() == self.spec_pipeline(),
            r.spec_life() == self.spec_life(),
    {
        let mut s = self;
        s.config.max_frame_size = value;
        s
    }

    /// Sets the bounded outbound command queue size (at least one).
    pub fn outbound_queue_size(self, value: usize) -> (r: Self)
        ensures
            r.spec_config() == (TcpConnectionConfig { outbound_queue_size: at_least_one(value), ..self.spec_config() }),
            r.spec_addr() == self.spec_addr(),
            r.spec_pipeline() == self.spec_pipeline(),
            r.spec_life() == self.spec_life(),
    {
        let mut s = self;
        s.config.outbound_queue_size = at_least_one_exec(value);
        s
    }

    /// Enables or disables `TCP_NODELAY`.
    pub fn tcp_nodelay(self, value: bool) -> (r: Self)
        ensures
            r.spec_config() == (TcpConnectionConfig { tcp_nodelay: value, ..self.spec_config() }),
            r.spec_addr() == self.spec_addr(),
            r.spec_pipeline() == self.spec_pipeline(),
            r.spec_life() == self.spec_life(),
    {
        let mut s = self;
        s.config.tcp_nodelay = value;
        s
    }

}

impl TcpServer<NoPipeline, NoLife> {
    /// Creates a TCP server builder for the provided local address.
    pub fn bind(addr: &str) -> (r: Self)
        ensures
            r.spec_addr() == addr@,
            r.spec_config() == tcp_config_default(),
    {
        Self { addr: addr.to_owned(), pipeline_factory: NoPipeline, config: TcpConnectionConfig::default(), life: NoLife }
    }
}

impl<L> TcpServer<NoPipeline, L> {
    /// Sets the connection pipeline factory.
    pub fn pipeline<F>(self, factory: F) -> (r: TcpServer<F, L>)
        ensures
            r.spec_addr() == self.spec_addr(),
            r.spec_pipeline() == factory,
            r.spec_config() == self.spec_config(),
            r.spec_life() == self.spec_life(),
    {
        TcpServer { addr: self.addr, pipeline_factory: factory, config: self.config, life: self.life }
    }
}

impl<F, L> TcpServer<F, L> {
    /// Attaches lifecycle hooks.
    pub fn life<NextLife>(self, life: NextLife) -> (r: TcpServer<F, NextLife>)
        ensures
            r.spec_addr() == self.spec_addr(),
            r.spec_pipeline() == self.spec_pipeline(),
            r.spec_config() == self.spec_config(),
            r.spec_life() == life,
    {
        TcpServer { addr: self.addr, pipeline_factory: self.pipeline_factory, config: self.config, life }
    }
}

} // verus!
