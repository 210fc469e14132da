[package]
name = "roku_remote"
version = "0.1.0"
edition = "2021"
publish = false

[dependencies]
urlencoding = "=2.1.3"
wake-on-lan = "=0.2.0"
async-std = "=1.13.2"
tokio = { version = "=1.53.2", features = ["time", "rt"] }
