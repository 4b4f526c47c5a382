[package]
name = "block_payload"
version = "0.1.0"
edition = "2021"
publish = false

[dependencies]
sha2 = "=0.10.9"
serde = { version = "=1.0.229", features = ["derive"] }
tracing = "=0.1.44"
base64-bytes = "0.1"
