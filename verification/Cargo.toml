[package]
name = "parity_jsonrpc"
version = "0.1.0"
edition = "2021"
publish = false

[dependencies]
serde_json = "=1.0.154"
serde = { version = "=1.0.229", features = ["derive"] }
log = "=0.4.35"
env_logger = "=0.11.11"
lazy_static = "=1.5.1"
parking_lot = "=0.12.5"
bytes = "1"
