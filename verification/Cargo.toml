[package]
name = "herdr_platform"
version = "0.1.0"
edition = "2021"
publish = false

[dependencies]
interprocess = "2"
libc = "0.2"
time = "0.3"
tokio = { version = "1", features = ["process"] }
