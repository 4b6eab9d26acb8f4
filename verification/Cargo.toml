[package]
name = "slack_client"
version = "0.1.0"
edition = "2021"
publish = false

[dependencies]
email_address = "=0.2.9"
http = "=1.5.0"
reqwest = { version = "=0.13.5", default-features = false, features = ["json"] }
serde = { version = "=1.0.229", features = ["derive"] }
serde_json = "=1.0.151"
serde_urlencoded = "=0.7.1"
thiserror = "=2.0.21"
tokio = { version = "=1.53.2", features = ["time"] }
tracing = "=0.1.44"
