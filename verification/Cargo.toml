[package]
name = "klukai_admin"
version = "0.1.0"
edition = "2021"
publish = false

[dependencies]
camino = "1"
deadpool-sqlite = "*"
eyre = "0.6"
futures = "0.3"
rangemap = "1"
rusqlite = { version = "*", features = ["bundled"] }
serde = { version = "1", features = ["derive"] }
serde_json = "1"
thiserror = "1"
time = { version = "0.3", features = ["serde"] }
tokio = { version = "1", features = ["full"] }
tokio-serde = { version = "0.9", features = ["json"] }
tokio-util = { version = "0.7", features = ["codec"] }
tracing = "0.1"
tracing-filter = "0.1.0-alpha.2"
tracing-subscriber = "0.3"
uuid = { version = "1", features = ["serde"] }
