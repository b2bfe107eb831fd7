[package]
name = "chiri"
version = "0.1.0"
edition = "2021"
publish = false

[dependencies]
regex = "1"
serde = { version = "1", features = ["derive"] }
serde_yaml = "0.9"
libc = "0.2"
inotify = "0.11"
log = "0.4"
anyhow = "1"
