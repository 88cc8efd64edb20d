[package]
name = "vpncbar"
version = "0.1.0"
edition = "2021"
publish = false

[dependencies]
async-channel = "=2.5.0"
dirs = "=6.0.0"
env_logger = "=0.11.11"
gtk4 = { version = "=0.10.3", features = ["v4_10"] }
ksni = { version = "=0.3.7", features = ["blocking"] }
libc = "=0.2.191"
log = "=0.4.35"
notify-rust = "=4.18.2"
serde = { version = "=1.0.229", features = ["derive"] }
serde_json = "=1.0.154"
