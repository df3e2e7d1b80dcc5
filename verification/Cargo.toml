[package]
name = "snivy"
version = "0.1.0"
edition = "2021"
publish = false

[dependencies]
dashmap = "=6.2.1"
serde = { version = "*", features = ["derive"] }
serde_json = "*"
chrono = { version = "*", features = ["serde"] }
tokio = { version = "*", features = ["rt-multi-thread", "macros", "sync", "time"] }
tokio-stream = { version = "*", features = ["sync"] }
tracing = "*"
tracing-subscriber = { version = "*", features = ["env-filter", "json"] }
thiserror = "*"
clap = { version = "*", features = ["derive"] }
uuid = { version = "*", features = ["v4", "serde"] }
config = { version = "*", default-features = false, features = ["toml"] }
