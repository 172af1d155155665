[package]
name = "werewolf"
version = "0.1.0"
edition = "2021"
publish = false

[dependencies]
rand = "0.8"
tokio = { version = "1", features = ["full"] }
warp = "0.3"
futures = "0.3"
tokio-stream = "0.1"
crossbeam-channel = "0.5"
lazy_static = "1"
rodio = { version = "0.17", default-features = false, features = ["mp3"] }
anyhow = "1"
log = "0.4"
pretty_env_logger = "0.5"
