[package]
name = "mini_kv"
version = "0.1.0"
edition = "2021"
publish = false

[dependencies]
bytes = "1"
mini-redis = "*"
tokio = { version = "1", features = ["full"] }
