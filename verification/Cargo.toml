[package]
name = "nautical"
version = "0.1.0"
edition = "2021"
publish = false

[dependencies]
anyhow = "*"
chrono = "*"
parking_lot = "*"
serialport = { version = "*", default-features = false }
