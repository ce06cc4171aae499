[package]
name = "goose_agent"
version = "0.1.0"
edition = "2021"
publish = false

[dependencies]
anyhow = "1"
async-stream = "0.3"
async-trait = "0.1"
chrono = "0.4"
futures = "0.3"
futures-util = "0.3"
regex = "1"
serde_json = "1"
serde_yaml = "0.9"
tokio = { version = "1", features = ["rt", "sync", "macros", "time"] }
tracing = "0.1"
