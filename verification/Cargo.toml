[package]
name = "epik"
version = "0.1.0"
edition = "2021"
publish = false

[dependencies]
anyhow = "1"
include-crypt = "*"
keyring = "3"
libc = "0.2"
rustix = { version = "1", features = ["fs", "process"] }
serde = { version = "1", features = ["derive"] }
serde_json = "1"
ureq = { version = "3", features = ["json"] }
