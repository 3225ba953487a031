[package]
name = "battery_telemetry"
version = "0.1.0"
edition = "2021"
publish = false

[dependencies]
regex = "1"
rosc = "*"
clap = { version = "4", features = ["derive"] }
tracing = "0.1"
tracing-subscriber = "0.3"
