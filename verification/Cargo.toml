[package]
name = "mavlink-server"
version = "0.1.0"
edition = "2021"
publish = false

[dependencies]
mavlink = { version = "=0.13.1", default-features = false, features = ["std", "ardupilotmega", "serde"] }
chrono = "=0.4.45"
uuid = { version = "=1.29.0", features = ["v4", "v5", "serde"] }
url = "=2.5.8"
indexmap = { version = "=2.14.2", features = ["serde"] }
serde = { version = "=1.0.229", features = ["derive"] }
serde_json = "=1.0.154"
tokio = { version = "=1.54.1", features = ["full"] }
anyhow = "=1.0.104"
arc-swap = "=1.9.3"
async-trait = "=0.1.92"
tracing = "=0.1.44"
axum = { version = "=0.7.9", features = ["ws"] }
futures = "=0.3.34"
mime_guess = "=2.0.5"
regex = "1"
tracing-subscriber = "0.3"
