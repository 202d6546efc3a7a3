[package]
name = "desktop_ipc"
version = "0.1.0"
edition = "2021"
publish = false

[dependencies]
anyhow = "1"
dirs = "*"
env_logger = "*"
futures = "0.3"
log = "0.4"
parity-tokio-ipc = "*"
tokio = { version = "1", features = ["full"] }
