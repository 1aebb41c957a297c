[package]
name = "sweeper"
version = "0.1.0"
edition = "2021"
publish = false

[dependencies]
rusqlite = { version = "*", features = ["bundled"] }
serde = { version = "*", features = ["derive"] }
envy = "*"
humantime-serde = "*"
anyhow = "*"
log = "*"
env_logger = "*"
futures = "0.1"
tokio-core = "0.1"
telegram-bot = "0.6"
