[package]
name = "arirs"
version = "0.1.0"
edition = "2021"
publish = false

[dependencies]
rand = "0.8"
reqwest = "0.12"
tokio = { version = "1", features = ["rt-multi-thread", "macros", "time", "sync", "net"] }
tokio-tungstenite = "0.24"
futures-util = "0.3"

[dev-dependencies]
serde = "1"
serde_json = "1"
serde_qs = "0.13"
url = "2"
