[package]
name = "udp_stream"
version = "0.1.0"
edition = "2021"
publish = false

[dependencies]
async-trait = "0.1"
futures-util = "0.3"
libc = "0.2"
rand = "0.9"
tokio = { version = "1", features = ["net", "sync"] }
tracing = "0.1"
