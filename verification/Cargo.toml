[package]
name = "beacon_api_checker"
version = "0.1.0"
edition = "2021"
publish = false

[dependencies]
axum = "0.6"
clap = { version = "4", features = ["derive"] }
eyre = "0.6"
futures = "0.3"
human-duration = "0.1"
lazy_static = "1.4"
prometheus = "0.13"
rand = "0.8"
tokio = { version = "1", features = ["full"] }
tracing = "0.1"
tracing-subscriber = "0.3"
url = "2"
