[package]
name = "runsc-sentry-guard"
version = "0.1.0"
edition = "2021"
publish = false

[dependencies]
anyhow = "=1.0.104"
ipnet = { version = "=2.12.2", features = ["serde"] }
libc = "=0.2.191"
mio = { version = "=1.2.4", features = ["os-poll", "net"] }
notify = "=8.2.1"
parking_lot = "=0.12.5"
regex = "=1.13.1"
serde = { version = "=1.0.229", features = ["derive"] }
serde_json = "=1.0.154"
signal-hook = "=0.3.18"
toml = "=0.8.23"
