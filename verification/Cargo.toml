[package]
name = "cipher_relay"
version = "0.1.0"
edition = "2021"
publish = false

[dependencies]
futures-util = "0.3"
rand = "0.8"
tokio = { version = "1", features = ["macros", "rt-multi-thread", "net", "sync", "io-util", "io-std", "signal"] }
tokio-tungstenite = "0.24"
url = "2"
uuid = { version = "1", features = ["v4"] }
