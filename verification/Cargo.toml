[package]
name = "mpqtt"
version = "0.1.0"
edition = "2021"
publish = false

[dependencies]
tokio = { version = "*", features = ["rt-multi-thread", "macros", "time"] }
mqtt-async-client = "*"
config = "*"
serde = { version = "*", features = ["derive"] }
serde_derive = "*"
serde_json = "*"
log = "*"
pretty_env_logger = "*"
libc = "*"
