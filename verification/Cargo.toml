[package]
name = "server_signal"
version = "0.1.0"
edition = "2021"
publish = false

[dependencies]
serde_json = "*"
json-patch = "*"
serde = { version = "*", features = ["derive"] }
