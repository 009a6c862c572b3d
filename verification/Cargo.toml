[package]
name = "quake_report"
version = "0.1.0"
edition = "2021"
publish = false

[dependencies]
clap = { version = "*", features = ["derive"] }
eyre = "*"
serde = "*"
serde_json = "*"
