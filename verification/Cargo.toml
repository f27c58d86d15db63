[package]
name = "scylla-rust-mcp"
version = "0.1.0"
edition = "2021"
publish = false

[dependencies]
anyhow = "=1.0.104"
async-trait = "=0.1.92"
base64 = "=0.22.1"
openssl = "=0.10.81"
rust-mcp-schema = "=0.3.0"
rust-mcp-sdk = "=0.1.3"
scylla = { version = "=0.14.0", features = ["ssl"] }
scylla-cql = "=0.3.0"
serde = { version = "=1.0.229", features = ["derive"] }
serde_json = { version = "=1.0.154", features = ["preserve_order"] }
tokio = { version = "=1.54.1", features = ["rt-multi-thread", "macros", "sync", "time"] }
tracing = "=0.1.44"
tracing-subscriber = { version = "=0.3.23", features = ["env-filter"] }
uuid = "=1.29.0"
