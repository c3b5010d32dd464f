[package]
name = "celerix_store"
version = "0.1.0"
edition = "2021"
publish = false

[dependencies]
serde_json = "*"
aes-gcm = "*"
hex = "*"
tokio = { version = "*", features = ["full"] }
clap = { version = "*", features = ["derive"] }
anyhow = "*"
env_logger = "*"
log = "*"
serde = { version = "*", features = ["derive"] }
async-trait = "*"
