[package]
name = "neurox"
version = "0.1.0"
edition = "2021"
publish = false

[dependencies]
env_logger = "*"
log = "0.4"
rand = "0.8"
rocksdb = "*"
serde_json = "1"
telegram-bot = "*"
thiserror = "1"
tokio = { version = "1", features = ["sync", "rt-multi-thread", "macros"] }
tonic = { version = "*", default-features = false }
