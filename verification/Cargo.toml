[package]
name = "rafs"
version = "0.1.0"
edition = "2021"
publish = false

[dependencies]
anyhow = "1"
fuse-backend-rs = "*"
libc = "0.2"
serde_json = "1"
