[package]
name = "chat_relay"
version = "0.1.0"
edition = "2021"
publish = false

[dependencies]
tokio = { version = "1", features = ["sync", "rt-multi-thread", "macros"] }
warp = "0.3"
chrono = "0.4"
futures = "0.3"

[dev-dependencies]
serde_json = "1"
