[package]
name = "agent_tools"
version = "0.1.0"
edition = "2021"
publish = false

[dependencies]
anyhow = "1"
async-trait = "0.1"
chrono = { version = "0.4", default-features = false, features = ["std", "clock"] }
encoding_rs = "0.8"
futures-util = { version = "0.3", default-features = false, features = ["std"] }
ignore = "0.4"
regex = "1"
reqwest = { version = "0.12", default-features = false, features = ["stream"] }
scraper = { version = "*", default-features = false }
serde = { version = "1", features = ["derive"] }
serde_json = "1"
sha2 = "0.10"
tokio = { version = "1", features = ["process", "time", "rt", "macros", "io-util", "sync"] }
tokio-util = "0.7"
tracing = "0.1"
uuid = { version = "1", features = ["v4"] }
