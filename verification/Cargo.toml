[package]
name = "moobius"
version = "0.1.0"
edition = "2021"
publish = false

[dependencies]
uuid = { version = "=1.27.0", features = ["v4"] }
serde = "*"
serde_derive = "*"
serde_json = "*"
reqwest = { version = "*", default-features = false, features = ["blocking", "json", "multipart", "rustls-tls"] }
tokio = { version = "*", features = ["rt", "rt-multi-thread", "macros"] }
tokio-tungstenite = "=0.30.0"
tungstenite = "=0.30.0"
url = "*"
futures = "*"
