[package]
name = "gibi"
version = "0.1.0"
edition = "2021"
publish = false

[dependencies]
circular-buffer = "=0.1.9"
log = "0.4"
env_logger = "0.11"
thiserror = "1"
serde = { version = "1", features = ["derive"] }
