[package]
name = "aegis"
version = "0.1.0"
edition = "2021"
publish = false

[dependencies]
blake3 = { version = "1", features = ["pure"] }
chrono = "0.4"
uuid = { version = "1", features = ["v4"] }
dashmap = "5"
serde = { version = "1", features = ["derive"] }
serde_json = "1"
prometheus = { version = "0.13", default-features = false }
lazy_static = "1"
tokio = { version = "1", features = ["rt-multi-thread", "macros", "time"] }
tracing = "0.1"
tracing-subscriber = { version = "0.3", features = ["json", "env-filter"] }
rand = "0.8"
