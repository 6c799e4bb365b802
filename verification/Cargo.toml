[package]
name = "session_relay"
version = "0.1.0"
edition = "2021"
publish = false

[dependencies]
anyhow = "*"
clap = { version = "*", features = ["derive"] }
crossterm = "*"
prettytable-rs = "*"
tokio = { version = "*", features = ["full"] }
