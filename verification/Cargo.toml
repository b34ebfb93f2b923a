[package]
name = "yast_core"
version = "0.1.0"
edition = "2021"
publish = false

[dependencies]
anyhow = "=1.0.104"
dirs = "=7.0.0"
fern = "=0.7.1"
handy-keys = "=0.3.4"
humantime = "=2.4.0"
iced = { version = "=0.14.0", default-features = false }
include_dir = "=0.7.4"
log = "=0.4.34"
mlua = { version = "=0.11.6", features = ["luajit", "vendored"] }
ron = "=0.12.2"
serde = { version = "=1.0.229", features = ["derive"] }
strum = { version = "=0.28.0", features = ["derive"] }
