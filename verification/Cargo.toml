[package]
name = "motosan_agent_tool"
version = "0.8.1"
edition = "2021"
publish = false

[dependencies]
async-trait = "0.1"
boa_engine = "*"
chrono = "0.4"
chrono-tz = "*"
motosan-agent-primitives = "*"
pdf-extract = "*"
reqwest = { version = "0.12", default-features = false, features = ["json", "rustls-tls"] }
serde = { version = "1", features = ["derive"] }
serde_json = "1"
thiserror = "*"
tokio = { version = "1", features = ["rt", "rt-multi-thread", "macros", "time", "process", "sync"] }
tokio-util = "0.7"
