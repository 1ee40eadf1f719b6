[package]
name = "ai-board"
version = "0.1.0"
edition = "2021"
publish = false

[dependencies]
agent-client-protocol = "*"
anyhow = "1"
async-trait = "0.1"
clap = { version = "4", features = ["derive"] }
rusqlite = { version = "*", features = ["bundled"] }
serde = { version = "1", features = ["derive"] }
serde_json = "1"
serde_yaml = "0.9"
tiny_http = "0.12"
tokio = { version = "1", features = ["full"] }
tokio-util = { version = "0.7", features = ["compat"] }
