//! The first TCP server builder, with its own configuration type.
use vstd::prelude::*;

use crate::transport::{at_least_one, at_least_one_exec};

verus! {

/// Marker used before a TCP server pipeline has been configured.
pub struct NoPipeline;

/// TCP server configuration.
#[derive(Clone)]
pub struct ServerConfig {
    pub read_buffer_capacity: usize,
    pub write_buffer_capacity: usize,
    pub max_frame_size: usize,
    pub outbound_queue_size: usize,
    pub tcp_nodelay: bool,
}

/// The default configuration.
pub open spec fn server_config_default() -> ServerConfig {
    ServerConfig {
        read_buffer_capacity: 8192,
        write_buffer_capacity: 8192,
        max_frame_size: 1048576,
        outbound_queue_size: 1024,
        tcp_nodelay: true,
    }
}

impl Default for ServerConfig {
    /// 8 KiB buffers, a 1 MiB frame limit, a queue of 1024 and `TCP_NODELAY`.
    fn default() -> (r: Self)
        ensures
            r == server_config_default(),
    {
        Self {
            read_buffer_capacity: 8192,
            write_buffer_capacity: 8192,
            max_frame_size: 1048576,
            outbound_queue_size: 1024,
            tcp_nodelay: true,
        }
    }
}

/// Builder for a TCP server.
pub struct TcpServer<F = NoPipeline> {
    addr: String,
    pipeline_factory: F,
    config: ServerConfig,
}

impl<F> TcpServer<F> {
    /// The address to bind.
    pub closed spec fn spec_addr(&self) -> Seq<char> {
        self.addr@
    }

    /// The pipeline factory.
    pub closed spec fn spec_pipeline(&self) -> F {
        self.pipeline_factory
    }

    /// The connection configuration.
    pub closed spec fn spec_config(&self) -> ServerConfig {
        self.config
    }

    /// The parts the runtime starts from.
    pub fn into_parts(self) -> (r: (String, F, ServerConfig))
        ensures
            r.0@ == self.spec_addr(),
            r.1 == self.spec_pipeline(),
            r.2 == self.spec_config(),
    {
        (self.addr, self.pipeline_factory, self.config)
    }

    /// Sets the initial read buffer capacity.
    pub fn read_buffer_capacity(self, value: usize) -> (r: Self)
        ensures
            r.spec_config() == (ServerConfig { read_buffer_capacity: value, ..self.spec_config() }),
            r.spec_addr() == self.spec_addr(),
            r.spec_pipeline() == self.spec_pipeline(),
    {
        let mut s = self;
        s.config.read_buffer_capacity = value;
        s
    }

    /// Sets the initial write buffer capacity.
    pub fn write_buffer_capacity(self, value: usize) -> (r: Self)
        ensures
            r.spec_config() == (ServerConfig { write_buffer_capacity: value, ..self.spec_config() }),
            r.spec_addr() == self.spec_addr(),
            r.spec_pipeline() == self.spec_pipeline(),
    {
        let mut s = self;
        s.config.write_buffer_capacity = value;
        s
    }

    /// Sets the maximum buffered frame size.
    pub fn max_frame_size(self, value: usize) -> (r: Self)
        ensures
            r.spec_config() == (ServerConfig { max_frame_size: value, ..self.spec_config() }),
            r.spec_addr() == self.spec_addr(),
            r.spec_pipeline() == self.spec_pipeline(),
    {
        let mut s = self;
        s.config.max_frame_size = value;
        s
    }

    /// Sets the bounded outbound command queue size (at least one).
    pub fn outbound_queue_size(self, value: usize) -> (r: Self)
        ensures
            r.spec_config() == (ServerConfig { outbound_queue_size: at_least_one(value), ..self.spec_config() }),
            r.spec_addr() == self.spec_addr(),
            r.spec_pipeline() == self.spec_pipeline(),
    {
        let mut s = self;
        s.config.outbound_queue_size = at_least_one_exec(value);
        s
    }

    /// Enables or disables `TCP_NODELAY`.
    pub fn tcp_nodelay(self, value: bool) -> (r: Self)
        ensures
            r.spec_config() == (ServerConfig { tcp_nodelay: value, ..self.spec_config() }),
            r.spec_addr() == self.spec_addr(),
            r.spec_pipeline() == self.spec_pipeline(),
    {
        let mut s = self;
        s.config.tcp_nodelay = value;
        s
    }

}

impl TcpServer<NoPipeline> {
    /// Creates a TCP server builder for the provided local address.
    pub fn bind(addr: &str) -> (r: Self)
        ensures
            r.spec_addr() == addr@,
            r.spec_config() == server_config_default(),
    {
        Self { addr: addr.to_owned(), pipeline_factory: NoPipeline, config: ServerConfig::default() }
    }

    /// Sets the connection pipeline factory.
    pub fn pipeline<F>(self, factory: F) -> (r: TcpServer<F>)
        ensures
            r.spec_addr() == self.spec_addr(),
            r.spec_pipeline() == factory,
            r.spec_config() == self.spec_config(),
    {
        TcpServer { addr: self.addr, pipeline_factory: factory, config: self.config }
    }
}

} // verus!
