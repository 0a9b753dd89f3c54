[package]
name = "terminal_mcp"
version = "0.1.0"
edition = "2021"
publish = false

[dependencies]
vte = "0.13"
regex = "1"
chrono = "0.4"
uuid = { version = "1", features = ["v4", "serde"] }
serde = { version = "1", features = ["derive"] }
serde_json = "1"
serde_yaml = "0.9"
thiserror = "1"
anyhow = "1"
tokio = { version = "1", features = ["full"] }
tracing = "0.1"
tracing-subscriber = { version = "0.3", features = ["env-filter"] }
portable-pty = "0.8"
libc = "0.2"
schemars = "1"
rmcp = { version = "0.9", features = ["server", "macros", "transport-io"] }
