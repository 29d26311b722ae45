[package]
name = "mchose"
version = "0.1.0"
edition = "2021"
publish = false

[dependencies]
libc = "0.2"
tokio = { version = "1", features = ["rt", "time", "sync", "macros", "net"] }
futures = "0.3"
udev = "*"
serde_json = "1"
