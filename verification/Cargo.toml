[package]
name = "nanobot"
version = "0.1.0"
edition = "2021"
publish = false

[dependencies]
regex = "=1.13.1"
mail-parser = "=0.11.9"
lettre = { version = "=0.11.23", features = ["tokio1", "tokio1-native-tls"] }
serde = { version = "=1.0.229", features = ["derive"] }
serde_json = "=1.0.154"
serde_yaml = "=0.9.34"
chrono = "=0.4.45"
tokio = { version = "=1.54.1", features = ["full"] }
async-trait = "=0.1.92"
anyhow = "=1.0.104"
thiserror = "=2.0.21"
tracing = "=0.1.44"
futures = "=0.3.34"
imap = "=2.4.1"
native-tls = "=0.2.18"
reqwest = { version = "=0.13.5", features = ["json"] }
schemars = "=1.2.3"
dingtalk-stream = "=0.1.7"
feishu-sdk = { version = "=0.1.2", features = ["websocket"] }
