[package]
name = "fw_fanctrl"
version = "0.1.0"
edition = "2021"
publish = false

[dependencies]
config = { version = "*", default-features = false, features = ["ron"] }
env_logger = "*"
libc = "0.2"
log = "0.4"
ron = "*"
serde = { version = "1", features = ["derive"] }
serde_json = "1"
