[package]
name = "elementary"
version = "0.1.0"
edition = "2021"
publish = false

[dependencies]
ciborium = "*"
cxx = "1"
serde = { version = "1", features = ["derive"] }
serde_json = "1"
tokio = { version = "1", features = ["full"] }
tokio-tungstenite = "*"
futures-util = "0.3"
log = "0.4"
env_logger = "*"
