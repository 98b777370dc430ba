[package]
name = "readbench"
version = "0.1.0"
edition = "2021"
publish = false

[dependencies]
async-std = "*"
env_logger = "*"
futures = "*"
tokio = { version = "*", features = ["fs", "io-util", "rt", "rt-multi-thread"] }
