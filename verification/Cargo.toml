[package]
name = "robocup"
version = "0.1.0"
edition = "2021"
publish = false

[dependencies]
cobs = "*"
serde = { version = "1", features = ["derive"] }
serde_json = "1"
thiserror = "*"
tokio = { version = "1", features = ["macros", "rt-multi-thread", "sync", "net"] }
axum = "0.8"
clap = { version = "4", features = ["derive"] }
rapier2d = "*"
pid = "*"
micromath = "*"
log = "*"
