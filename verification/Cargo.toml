[package]
name = "notion_alerter"
version = "0.1.0"
edition = "2021"
publish = false

[dependencies]
u-siem = "=0.7.0"
chrono = "=0.4.45"
serde_json = { version = "=1.0.154", features = ["preserve_order"] }
reqwest = { version = "=0.11.27", features = ["blocking", "json"] }
serde = { version = "=1.0.229", features = ["derive"] }
