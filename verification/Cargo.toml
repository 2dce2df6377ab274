[package]
name = "dnsd"
version = "0.1.0"
edition = "2021"
publish = false

[dependencies]
anyhow = "1"
async-trait = "0.1"
dotenvy = "0.15"
futures = "0.3"
hickory-server = { version = "0.24", features = ["resolver"] }
hickory-resolver = { version = "0.24", features = ["system-config", "tokio-runtime"] }
rand = "0.8"
resolv-conf = "0.7"
tokio = { version = "1", features = ["full"] }
tracing = "0.1"
tracing-subscriber = "0.3"
