[package]
name = "confluence_markdown"
version = "0.1.0"
edition = "2021"
publish = false

[dependencies]
htmd = "*"
base64 = "0.22"
serde_json = "1"
reqwest = { version = "0.12", default-features = false, features = ["json", "rustls-tls"] }
tokio = { version = "1", features = ["time"] }
anyhow = "1"
