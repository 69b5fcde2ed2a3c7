[package]
name = "chat_cats"
version = "0.1.0"
edition = "2021"
publish = false

[dependencies]
regex = "1"
regex-syntax = "*"
rand = "0.8"
chrono = "0.4"
chrono-tz = "*"
serde = { version = "1", features = ["derive"] }
serde_derive = "1"
toml = "*"
tokio = { version = "1", features = ["rt-multi-thread", "macros", "time", "sync"] }
tokio-stream = "0.1"
async-trait = "0.1"
thiserror = "1"
log = "0.4"
env_logger = "*"
dotenv = "0.15"
strum = { version = "*", features = ["derive"] }
mongodb = "2"
discord = "*"
