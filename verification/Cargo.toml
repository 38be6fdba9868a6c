[package]
name = "udbot"
version = "0.1.0"
edition = "2021"
publish = false

[dependencies]
serde = { version = "=1.0.229", features = ["derive"] }
serde_json = "=1.0.154"
teloxide = "=0.4.0"
tokio = { version = "=1.54.1", features = ["macros", "rt-multi-thread"] }
tokio-stream = "=0.1.19"
tokio-util = { version = "=0.6.10", features = ["codec"] }
curl = "=0.4.51"
chrono = "=0.4.45"
log = "=0.4.35"
