[package]
name = "s3browse"
version = "0.1.0"
edition = "2021"
publish = false

[dependencies]
anyhow = "*"
aws-sdk-s3 = "*"
chrono = "*"
crossterm = "*"
dirs = "*"
humansize = "*"
ratatui = "*"
serde = { version = "*", features = ["derive"] }
serde_json = "*"
tokio = { version = "*", features = ["full"] }
