[package]
name = "soulrust"
version = "0.1.0"
edition = "2021"
publish = false

[dependencies]
semver = "=1.0.28"
buffa = "=0.9.2"
serde = { version = "=1.0.229", features = ["derive"] }
serde_json = "=1.0.154"
serde_yaml = "0.9"
bincode = { version = "=2.0.1", features = ["serde"] }
tokio = { version = "=1.54.1", features = ["rt-multi-thread", "net", "io-util", "fs", "sync", "time"] }
tiny_http = "0.12"
ureq = { version = "=2.12.1", features = ["json"] }
self-replace = "1"
socket2 = "=0.5.10"
axum = "=0.8.9"
tower-http = { version = "=0.6.11", features = ["cors"] }
