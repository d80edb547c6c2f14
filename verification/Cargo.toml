[package]
name = "chat_relay"
version = "0.1.0"
edition = "2021"
publish = false

[dependencies]
bcrypt = "*"
futures = "*"
rocket = "*"
rocket_ws = "*"
serde = { version = "*", features = ["derive"] }
serde_json = "*"
tokio = { version = "*", features = ["io-util"] }
websocket = { version = "*", default-features = false, features = ["sync"] }
