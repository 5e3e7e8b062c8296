[package]
name = "api"
version = "0.1.0"
edition = "2021"
publish = false

[dependencies]
serde = { version = "1", features = ["derive"] }
serde_json = "1"
sled = "*"
tokio = { version = "1", features = ["rt-multi-thread", "macros"] }
yahoo_finance_api = "*"
