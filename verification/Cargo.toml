[package]
name = "beatr"
version = "0.1.0"
edition = "2021"
publish = false

[dependencies]
anyhow = "*"
chrono = "*"
dark-light = "*"
dirs = "*"
env_logger = "*"
hound = "*"
serde = { version = "*", features = ["derive"] }
serde_json = "*"
