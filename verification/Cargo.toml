[package]
name = "novel"
version = "0.1.0"
edition = "2021"
publish = false

[dependencies]
chrono = { version = "0.4", features = ["serde"] }
serde = { version = "1", features = ["derive"] }
serde_json = "1"
thiserror = "2"
async-trait = "0.1"
tokio = { version = "1", features = ["sync", "rt", "macros", "time"] }
tokio-util = "0.7"
uuid = { version = "1", features = ["v4", "serde"] }
anyhow = "1"
