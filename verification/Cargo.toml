[package]
name = "ssh_bridge"
version = "0.1.0"
edition = "2021"
publish = false

[dependencies]
russh = "*"
russh-sftp = "*"
tokio = { version = "*", features = ["rt-multi-thread", "macros", "io-util", "io-std", "fs"] }
env_logger = "*"

[dev-dependencies]
serde_json = "*"
