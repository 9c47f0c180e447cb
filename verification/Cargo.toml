[package]
name = "picoredsp"
version = "0.1.0"
edition = "2021"
publish = false

[dependencies]
alsa = "*"
async-trait = "*"
futures-util = "*"
libc = "*"
log = "*"
serde = { version = "1", features = ["derive"] }
serde_json = "1"
serde_norway = "*"
serde_yaml_ng = "*"
tokio = { version = "1", features = ["rt", "rt-multi-thread", "macros", "sync", "time"] }
tokio-tungstenite = "*"
tungstenite = "*"
