[package]
name = "syu"
version = "0.1.0"
edition = "2021"
publish = false

[dependencies]
anyhow = "=1.0.104"
axum = "*"
clap = { version = "=4.6.7", features = ["derive"] }
clap_complete = "=4.6.11"
serde = { version = "=1.0.229", features = ["derive"] }
serde_json = "=1.0.154"
serde_yaml = "=0.9.34"
tokio = { version = "1", features = ["rt-multi-thread", "net", "signal", "time"] }
