[package]
name = "claude_hooks"
version = "0.1.0"
edition = "2021"
publish = false

[dependencies]
serde_json = { version = "=1.0.151", features = ["float_roundtrip"] }
serde = { version = "=1.0.229", features = ["derive"] }
dirs = "=7.0.0"
