[package]
name = "session_demos"
version = "0.1.0"
edition = "2021"
publish = false

[dependencies]
ferrite-session = "*"
tokio = { version = "1", features = ["macros", "rt-multi-thread", "time"] }
env_logger = "*"
