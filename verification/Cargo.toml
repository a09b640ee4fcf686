[package]
name = "shithead_game_server"
version = "0.1.0"
edition = "2021"
publish = false

[dependencies]
rand = "*"
tokio = { version = "*", features = ["full"] }
tokio-tungstenite = "*"
futures = "*"
serde = { version = "*", features = ["derive"] }
serde_json = "*"
anyhow = "*"
log = "*"
env_logger = "*"
set_timeout = "*"
