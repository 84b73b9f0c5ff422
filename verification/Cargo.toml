[package]
name = "taptap"
version = "0.1.0"
edition = "2021"
publish = false

[dependencies]
flate2 = "*"
serde = { version = "*", features = ["derive"] }
serde_json = "*"
chrono = { version = "*", features = ["serde"] }
clap = { version = "*", features = ["derive"] }
env_logger = "*"
log = "*"
thiserror = "*"
