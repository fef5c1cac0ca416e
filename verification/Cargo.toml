[package]
name = "ezboard"
version = "0.1.0"
edition = "2021"
publish = false

[dependencies]
anyhow = "*"
clap = { version = "*", features = ["derive"] }
crossterm = { version = "*", features = ["event-stream"] }
futures = "*"
ratatui = "*"
tokio = { version = "*", features = ["fs", "io-std", "io-util", "macros", "rt-multi-thread", "sync", "time"] }
