//! The TCP client builder.
use core::time::Duration;
use vstd::prelude::*;

use crate::life::NoLife;
use crate::transport::tcp::config::{tcp_config_default, TcpConnectionConfig};
use crate::transport::{at_least_one, at_least_one_exec};

verus! {

/// Marker used before a TCP client pipeline has been configured.
pub struct NoPipeline;

/// Stores a reusable TCP client pipeline factory.
pub struct PipelineFactory<F> {
    factory: F,
}

impl<F> PipelineFactory<F> {
    /// The factory.
    pub closed spec fn spec_factory(&self) -> F {
        self.factory
    }

    /// The factory.
    pub fn into_inner(self) -> (r: F)
        ensures
            r == self.spec_factory(),
    {
        self.factory
    }
}

/// Stores a TCP client pipeline that will be consumed exactly once by `run`.
pub struct PipelineInstance<B> {
    pipeline: B,
}

impl<B> PipelineInstance<B> {
    /// The pipeline.
    pub closed spec fn spec_pipeline(&self) -> B {
        self.pipeline
    }

    /// The pipeline.
    pub fn into_inner(self) -> (r: B)
        ensures
            r == self.spec_pipeline(),
    {
        self.pipeline
    }
}

/// Builder for a TCP client connection.
pub struct TcpClient<F = NoPipeline, L = NoLife> {
    remote_addr: String,
    local_addr: Option<String>,
    pipeline_factory: F,
    config: TcpConnectionConfig,
    life: L,
}

/// The characters of an optional string.
pub open spec fn opt_chars(s: Option<String>) -> Option<Seq<char>> {
    match s {
        Some(s) => Some(s@),
        None => None,
    }
}

impl<F, L> TcpClient<F, L> {
    /// The address to connect to.
    pub closed spec fn spec_addr(&self) -> Seq<char> {
        self.remote_addr@
    }

    /// The local address to bind first, if any.
    pub closed spec fn spec_local_addr(&self) -> Option<Seq<char>> {
        opt_chars(self.local_addr)
    }

    /// The pipeline source.
    pub closed spec fn spec_pipeline(&self) -> F {
        self.pipeline_factory
    }

    /// The connection configuration.
    pub closed spec fn spec_config(&self) -> TcpConnectionConfig {
        self.config
    }

    /// The lifecycle hooks.
    pub closed spec fn spec_life(&self) -> L {
        self.life
    }

    /// The parts the runtime starts from.
    pub fn into_parts(self) -> (r: (String, Option<String>, F, TcpConnectionConfig, L))
        ensures
            r.0@ == self.spec_addr(),
            opt_chars(r.1) == self.spec_local_addr(),
            r.2 == self.spec_pipeline(),
            r.3 == self.spec_config(),
            r.4 == self.spec_life(),
    {
        (self.remote_addr, self.local_addr, self.pipeline_factory, self.config, self.life)
    }

    /// Sets the initial read buffer capacity.
    pub fn read_buffer_capacity(self, value: usize) -> (r: Self)
        ensures
            r.spec_config() == (TcpConnectionConfig { read_buffer_capacity: value, ..self.spec_config() }),
            r.spec_local_addr() == self.spec_local_addr(),
            r.spec_addr() == self.spec_addr(),
            r.spec_pipeline() == self.spec_pipeline(),
            r.spec_life() == self.spec_life(),
    {
        let mut s = self;
        s.config.read_buffer_capacity = value;
        s
    }

    /// Sets the initial write buffer capacity.
    pub fn write_buffer_capacity(self, value: usize) -> (r: Self)
        ensures
            r.spec_config() == (TcpConnectionConfig { write_buffer_capacity: value, ..self.spec_config() }),
            r.spec_local_addr() == self.spec_local_addr(),
            r.spec_addr() == self.spec_addr(),
            r.spec_pipeline() == self.spec_pipeline(),
            r.spec_life() == self.spec_life(),
    {
        let mut s = self;
        s.config.write_buffer_capacity = value;
        s
    }

    /// Sets the maximum buffered frame size.
    pub fn max_frame_size(self, value: usize) -> (r: Self)
        ensures
            r.spec_config() == (TcpConnectionConfig { max_frame_size: value, ..self.spec_config() }),
            r.spec_local_addr() == self.spec_local_addr(),
            r.spec_addr() == self.spec_addr(),
            r.spec_pipeline() == self.spec_pipeline(),
            r.spec_life() == self.spec_life(),
    {
        let mut s = self;
        s.config.max_frame_size = value;
        s
    }

    /// Sets the bounded outbound command queue size (at least one).
    pub fn outbound_queue_size(self, value: usize) -> (r: Self)
        ensures
            r.spec_config() == (TcpConnectionConfig { outbound_queue_size: at_least_one(value), ..self.spec_config() }),
            r.spec_local_addr() == self.spec_local_addr(),
            r.spec_addr() == self.spec_addr(),
            r.spec_pipeline() == self.spec_pipeline(),
            r.spec_life() == self.spec_life(),
    {
        let mut s = self;
        s.config.outbound_queue_size = at_least_one_exec(value);
        s
    }

    /// Enables or disables `TCP_NODELAY`.
    pub fn tcp_nodelay(self, value: bool) -> (r: Self)
        ensures
            r.spec_config() == (TcpConnectionConfig { tcp_nodelay: value, ..self.spec_config() }),
            r.spec_local_addr() == self.spec_local_addr(),
            r.spec_addr() == self.spec_addr(),
            r.spec_pipeline() == self.spec_pipeline(),
            r.spec_life() == self.spec_life(),
    {
        let mut s = self;
        s.config.tcp_nodelay = value;
        s
    }

    /// Closes the connection after this long without reads.
    pub fn idle_timeout(self, value: Duration) -> (r: Self)
        ensures
            r.spec_config() == (TcpConnectionConfig { idle_timeout: Some(value), ..self.spec_config() }),
            r.spec_local_addr() == self.spec_local_addr(),
            r.spec_addr() == self.spec_addr(),
            r.spec_pipeline() == self.spec_pipeline(),
            r.spec_life() == self.spec_life(),
    {
        let mut s = self;
        s.config.idle_timeout = Some(value);
        s
    }

    /// Collects byte and frame counters for the connection.
    pub fn track_connection_stats(self) -> (r: Self)
        ensures
            r.spec_config() == (TcpConnectionConfig { track_connection_stats: true, ..self.spec_config() }),
            r.spec_local_addr() == self.spec_local_addr(),
            r.spec_addr() == self.spec_addr(),
            r.spec_pipeline() == self.spec_pipeline(),
            r.spec_life() == self.spec_life(),
    {
        let mut s = self;
        s.config.track_connection_stats = true;
        s
    }

    /// Binds the client socket to a local address before connecting.
    pub fn bind(self, local_addr: &str) -> (r: Self)
        ensures
            r.spec_config() == self.spec_config(),
            r.spec_local_addr() == Some(local_addr@),
            r.spec_addr() == self.spec_addr(),
            r.spec_pipeline() == self.spec_pipeline(),
            r.spec_life() == self.spec_life(),
    {
        let mut s = self;
        s.local_addr = Some(local_addr.to_owned());
        s
    }

}

impl TcpClient<NoPipeline, NoLife> {
    /// Creates a TCP client builder for a remote socket address.
    pub fn connect(remote_addr: &str) -> (r: Self)
        ensures
            r.spec_addr() == remote_addr@,
            r.spec_local_addr() is None,
            r.spec_config() == tcp_config_default(),
    {
        Self {
            remote_addr: remote_addr.to_owned(),
            local_addr: None,
            pipeline_factory: NoPipeline,
            config: TcpConnectionConfig::default(),
            life: NoLife,
        }
    }
}

impl<L> TcpClient<NoPipeline, L> {
    /// Sets the connection pipeline factory.
    pub fn pipeline<F>(self, factory: F) -> (r: TcpClient<PipelineFactory<F>, L>)
        ensures
            r.spec_addr() == self.spec_addr(),
            r.spec_local_addr() == self.spec_local_addr(),
            r.spec_pipeline().spec_factory() == factory,
            r.spec_config() == self.spec_config(),
            r.spec_life() == self.spec_life(),
    {
        TcpClient {
            remote_addr: self.remote_addr,
            local_addr: self.local_addr,
            pipeline_factory: PipelineFactory { factory },
            config: self.config,
            life: self.life,
        }
    }

    /// Sets one pipeline, consumed by the single connection the client makes.
    pub fn pipeline_instance<B>(self, pipeline: B) -> (r: TcpClient<PipelineInstance<B>, L>)
        ensures
            r.spec_addr() == self.spec_addr(),
            r.spec_local_addr() == self.spec_local_addr(),
            r.spec_pipeline().spec_pipeline() == pipeline,
            r.spec_config() == self.spec_config(),
            r.spec_life() == self.spec_life(),
    {
        TcpClient {
            remote_addr: self.remote_addr,
            local_addr: self.local_addr,
            pipeline_factory: PipelineInstance { pipeline },
            config: self.config,
            life: self.life,
        }
    }
}

impl<F, L> TcpClient<F, L> {
    /// Attaches lifecycle hooks.
    pub fn life<NextLife>(self, life: NextLife) -> (r: TcpClient<F, NextLife>)
        ensures
            r.spec_addr() == self.spec_addr(),
            r.spec_local_addr() == self.spec_local_addr(),
            r.spec_pipeline() == self.spec_pipeline(),
            r.spec_config() == self.spec_config(),
            r.spec_life() == life,
    {
        TcpClient {
            remote_addr: self.remote_addr,
            local_addr: self.local_addr,
            pipeline_factory: self.pipeline_factory,
            config: self.config,
            life,
        }
    }
}

} // verus!
