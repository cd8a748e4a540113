[package]
name = "jigsaw"
version = "0.1.0"
edition = "2021"
publish = false

[dependencies]
rand = "*"
futures-util = "*"
tokio = { version = "*", features = ["full"] }
tokio-postgres = "*"
tokio-tungstenite = "*"
tungstenite = "*"
