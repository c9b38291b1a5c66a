[package]
name = "redeez"
version = "0.1.0"
edition = "2021"
publish = false

[dependencies]
redis = "*"
serde_json = "*"
tokio = { version = "*", features = ["sync", "rt-multi-thread", "time", "macros"] }
uuid = { version = "*", features = ["v4"] }
