[package]
name = "rs_netty"
version = "0.2.0"
edition = "2021"
publish = false

[dependencies]
bytes = "1"
base64 = "0.22"
sha1 = "0.10"
tokio = { version = "1", features = ["full"] }
thiserror = "2"
tracing = "0.1"
trait-variant = "0.1"
serde = { version = "1", features = ["derive"] }
sonic-rs = "*"
