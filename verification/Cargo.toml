[package]
name = "bandwidth"
version = "0.1.0"
edition = "2021"
publish = false

[dependencies]
anyhow = "*"
aya = { version = "*", features = ["async_tokio"] }
bytes = "*"
clap = { version = "*", features = ["derive"] }
env_logger = "*"
log = "*"
tokio = { version = "*", features = ["macros", "rt-multi-thread", "signal"] }
