[package]
name = "signaller"
version = "0.1.0"
edition = "2021"
publish = false

[dependencies]
argon2 = "=0.5.3"
base64 = "=0.21.7"
clap = { version = "=4.6.7", features = ["derive"] }
env_logger = "=0.11.11"
failure = "=0.1.8"
futures-channel = "=0.3.34"
futures-util = "=0.3.34"
hyper = { version = "=0.14.32", features = ["client", "http1", "tcp"] }
hyper-tls = "=0.5.0"
lazy_static = "=1.5.1"
log = "=0.4.34"
prometheus = "=0.13.4"
rand = "=0.8.8"
serde = { version = "=1.0.229", features = ["derive"] }
serde_json = "=1.0.154"
tokio = { version = "=1.54.1", features = ["macros", "rt-multi-thread", "sync"] }
toml = "=1.1.8"
warp = "=0.3.7"
warp-real-ip = "=0.2.0"
