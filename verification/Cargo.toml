[package]
name = "session_list"
version = "0.1.0"
edition = "2021"
publish = false

[dependencies]
humantime = "*"

[dev-dependencies]
serde_json = "*"
