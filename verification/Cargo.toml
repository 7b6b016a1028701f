[package]
name = "rust_collector"
version = "0.1.0"
edition = "2021"
publish = false

[dependencies]
notify = "6"
procfs = "0.16"
serde = { version = "1", features = ["derive"] }
serde_json = "1"
sysinfo = "0.29"
udev = "0.8"
