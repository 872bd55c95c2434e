[package]
name = "tokio-ws"
version = "0.1.0"
edition = "2021"
publish = false

[dependencies]
env_logger = "0.4"
futures = "0.1"
httparse = "1"
log = "0.3"
openssl = { version = "0.10", features = ["vendored"] }
rustc-serialize = "0.3"
tokio-core = "0.1"
tokio-proto = "0.1"
tokio-service = "0.1"
