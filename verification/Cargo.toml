[package]
name = "packable"
version = "0.1.0"
edition = "2021"
publish = false

[dependencies]
colored = "2"
fern-logger = "*"
parking_lot = "*"
time-helper = "*"
tracing = "*"
tracing-log = "*"
tracing-subscriber = "*"
