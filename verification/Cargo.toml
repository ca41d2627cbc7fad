[package]
name = "codex_acp"
version = "0.1.0"
edition = "2021"
publish = false

[dependencies]
agent-client-protocol = "1"
anyhow = "1"
clap = { version = "4", features = ["derive"] }
codex-protocol = "0.63"
serde = { version = "1", features = ["derive"] }
serde_json = { version = "1", features = ["preserve_order"] }
tokio = { version = "1", features = ["full"] }
tokio-util = { version = "0.7", features = ["compat"] }
tracing = "0.1"
tracing-subscriber = { version = "0.3", features = ["env-filter"] }
