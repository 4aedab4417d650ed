[package]
name = "azbridge"
version = "0.1.0"
edition = "2021"
publish = false

[dependencies]
url = "=2.5.8"
hmac = "=0.12.1"
sha2 = "=0.10.9"
base64 = "=0.22.1"
clap = { version = "=4.6.7", features = ["derive"] }
serde = { version = "=1.0.229", features = ["derive"] }
serde_yaml = "=0.9.34"
serde_json = "=1.0.154"
tokio = { version = "=1.54.1", features = ["io-util", "macros", "rt-multi-thread", "net", "time", "sync", "signal"] }
tracing = "=0.1.44"
anyhow = "=1.0.104"
thiserror = "=2.0.21"
bytes = "=1.12.1"
socket2 = "=0.6.5"
tokio-tungstenite = "*"
futures-util = "*"
uuid = { version = "*", features = ["v4"] }
tracing-subscriber = "*"
tracing-appender = "*"
dirs = "*"
reqwest = { version = "0.12", default-features = false, features = ["rustls-tls"] }
