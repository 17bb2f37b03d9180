[package]
name = "slack_tui"
version = "0.1.0"
edition = "2021"
publish = false

[dependencies]
unicode-width = "0.2"
tempfile = "3"
chrono = "0.4"
dirs = "*"
serde = { version = "1", features = ["derive"] }
serde_json = "1"
