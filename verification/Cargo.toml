[package]
name = "resp_frame"
version = "0.1.0"
edition = "2021"
publish = false

[dependencies]
anyhow = "1"
bytes = "1"
thiserror = "1"
