[package]
name = "cloud_stt"
version = "0.1.0"
edition = "2021"
publish = false

[dependencies]
serde_json = "*"
base64 = "*"
percent-encoding = "*"
futures-util = { version = "*", default-features = false, features = ["sink", "std"] }
reqwest = { version = "*", default-features = false, features = ["multipart"] }
tokio = { version = "*", default-features = false, features = ["rt", "time", "macros"] }
tokio-tungstenite = "*"

[dev-dependencies]
hound = "*"
