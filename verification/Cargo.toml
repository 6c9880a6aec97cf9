[package]
name = "goose"
version = "0.1.0"
edition = "2021"
publish = false

[dependencies]
anyhow = "1"
async-stream = "0.3"
async-trait = "0.1"
chrono = "0.4"
futures = "0.3"
indoc = "2"
rand = "0.8"
rmcp = { version = "*", default-features = false, features = ["server", "macros"] }
schemars = "1"
serde = { version = "1", features = ["derive"] }
serde_json = "1"
tokio = { version = "1", features = ["time", "rt", "macros", "sync"] }
tokio-stream = "0.1"
tokio-util = "0.7"
tracing = "0.1"
tracing-futures = "0.2"
