[package]
name = "arbitrage_analyzer"
version = "0.1.0"
edition = "2021"
publish = false

[dependencies]
uuid = { version = "*", features = ["v4"] }
chrono = "*"
serde_json = "*"
serde = { version = "*", features = ["derive"] }
redis = "*"
anyhow = "*"
log = "*"
env_logger = "*"
dotenvy = "*"
