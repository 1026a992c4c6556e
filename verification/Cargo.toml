[package]
name = "rtrax"
version = "0.1.0"
edition = "2021"
publish = false

[dependencies]
anyhow = "1"
clap = { version = "4", features = ["derive"] }
cpal = "*"
crossbeam-channel = "*"
dirs = "*"
openmpt = "*"
ratatui = "*"
rtrb = "*"
rustfft = "*"
serde = { version = "1", features = ["derive"] }
toml = "*"
tracing = "*"
tracing-appender = "*"
tracing-subscriber = { version = "*", features = ["env-filter"] }
