[package]
name = "world_server"
version = "0.1.0"
edition = "2021"
publish = false

[dependencies]
bytebuffer = "2"
env_logger = "0.11"
futures-util = "0.3"
log = "0.4"
tokio = { version = "1", features = ["full"] }
tokio-tungstenite = "*"
