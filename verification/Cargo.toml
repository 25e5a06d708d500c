[package]
name = "quote_streamer"
version = "0.1.0"
edition = "2021"
publish = false

[dependencies]
base64 = "0.13"
chrono = { version = "0.4", default-features = false, features = ["std"] }
futures-util = { version = "0.3", features = ["sink"] }
serde_json = "1"
tokio = { version = "1", features = ["net"] }
tokio-tungstenite = { version = "0.20", features = ["native-tls"] }

[dev-dependencies]
protobuf = "2"
