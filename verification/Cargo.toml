[package]
name = "mousehop"
version = "0.1.0"
edition = "2021"
publish = false

[dependencies]
async-trait = "0.1"
kcp = "0.6"
log = "0.4"
rustls = { version = "0.23", default-features = false, features = ["ring", "std"] }
serde = { version = "1", features = ["derive"] }
tokio = { version = "1", features = ["rt", "sync", "time", "macros"] }
tokio-util = "0.7"
webrtc-util = "=0.11.0"
