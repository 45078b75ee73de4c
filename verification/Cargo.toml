[package]
name = "swapbytes"
version = "0.1.0"
edition = "2021"
publish = false

[dependencies]
serde_cbor = "0.11"
serde = { version = "1", features = ["derive"] }
libp2p = { version = "0.53", features = ["tokio", "tcp", "quic", "noise", "yamux", "gossipsub", "mdns", "kad", "request-response", "cbor", "macros"] }
futures = "0.3"
tokio = { version = "1", features = ["macros", "rt-multi-thread"] }
ratatui = "0.29"
log = "0.4"
simplelog = "0.12"
