[package]
name = "codex_egress_relay"
version = "0.2.0"
edition = "2021"
publish = false

[dependencies]
axum = "0.7"
futures-util = "0.3"
reqwest = { version = "0.12", default-features = false, features = ["http2", "rustls-tls-manual-roots-no-provider", "stream"] }
rustls = "0.23"
serde_json = "1"
tokio = { version = "1", features = ["macros", "net", "rt-multi-thread", "signal"] }
uuid = { version = "1", features = ["v4"] }
webpki-roots = "0.26"
