[package]
name = "ludo"
version = "0.1.0"
edition = "2021"
publish = false

[dependencies]
sha3 = "=0.12.0"
base64ct = { version = "=1.8.3", features = ["alloc"] }
libloading = "=0.9.0"
anyhow = "=1.0.104"
clap = { version = "=4.6.7", features = ["derive"] }
dirs = "=7.0.0"
serde = { version = "=1.0.229", features = ["derive"] }
serde_json = "=1.0.151"
mlua = { version = "=0.12.2", features = ["luau"] }
ansi_term = "=0.12.1"
log = "=0.4.34"
