[package]
name = "aerolink_simple"
version = "0.1.0"
edition = "2021"
publish = false

[dependencies]
bytes = "1"
anyhow = "1"
tokio = { version = "1", features = ["full"] }
tokio-serial = { version = "5.4", default-features = false }
serialport = { version = "4", default-features = false }
crossterm = "0.28"
ratatui = "0.29"
tracing = "0.1"
tracing-subscriber = "0.3"
