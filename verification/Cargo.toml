[package]
name = "remote_mounts"
version = "0.1.0"
edition = "2021"
publish = false

[dependencies]
anyhow = "1"
unicode-width = "0.1"

[dev-dependencies]
regex = "1"
