[package]
name = "triggercd"
version = "0.1.0"
edition = "2021"
publish = false

[dependencies]
clap = { version = "3", features = ["derive"] }
env_logger = "0.8"
futures-util = { version = "0.3", features = ["sink"] }
log = "0.4"
tokio = { version = "1", features = ["io-util", "macros", "net", "process", "rt-multi-thread", "time"] }
tokio-tungstenite = "0.14"
