[package]
name = "fanout"
version = "0.1.0"
edition = "2021"
publish = false

[dependencies]
serde_json = "1"
chrono = "0.4"
tokio = { version = "1", features = ["full"] }
tokio-tungstenite = "*"
tungstenite = "*"
futures-util = "0.3"
serde = { version = "1", features = ["derive"] }
dotenv = "*"
url = "2"
erased-serde = "*"
serde-this-or-that = "*"
