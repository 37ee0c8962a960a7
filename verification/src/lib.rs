//! A typed TCP/UDP pipeline framework in the style of Netty: codecs that
//! frame byte streams and datagrams, typed pipeline builders, and endpoint
//! builders. The codecs' framing rules are stated and proved.
#![allow(unused_imports)]

pub mod buf;
pub mod codec;
pub mod error;
pub mod life;
pub mod pipeline;
pub mod search;
pub mod server;
pub mod text;
pub mod traits;
pub mod transport;
pub mod uint;

pub use error::{Error, Result};
pub use life::{CloseReason, NoLife};
pub use pipeline::{datagram_pipeline, pipeline};
pub use traits::{Business, DatagramHandler, Flow, Handler, Inbound, Outbound};
pub use transport::tcp::client::TcpClient;
pub use transport::tcp::server::TcpServer;
pub use transport::udp::client::UdpClient;
pub use transport::udp::server::UdpServer;
