[package]
name = "alumet"
version = "0.1.0"
edition = "2021"
publish = false

[dependencies]
anyhow = "1"
clap = { version = "4", features = ["derive"] }
env_logger = "0.11"
gethostname = "0.4"
humantime = "=2.4.0"
indoc = "2"
libc = "0.2"
libloading = "0.8"
log = "0.4"
notify = "6"
serde = { version = "1", features = ["derive"] }
tokio = { version = "1", features = ["rt-multi-thread", "time", "sync", "macros"] }
tokio-stream = "0.1"
tokio-timerfd = "0.2"
toml = "0.8"
