[package]
name = "abci"
version = "0.1.0"
edition = "2021"
publish = false

[dependencies]
bytes = "*"
env_logger = "*"
futures = "*"
log = "*"
tokio = { version = "*", features = ["full"] }
tokio-util = { version = "*", features = ["codec"] }

[dev-dependencies]
integer-encoding = "*"
