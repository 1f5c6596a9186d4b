[package]
name = "redonk"
version = "0.1.0"
edition = "2021"
publish = false

[dependencies]
rand = "*"
clap = { version = "*", features = ["derive"] }
env_logger = "*"
log = "*"
fs2 = "*"
serde = { version = "*", features = ["derive"] }
serde_json = "*"
