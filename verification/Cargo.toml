[package]
name = "tmux_selector"
version = "0.1.0"
edition = "2021"
publish = false

[dependencies]
clap = { version = "4", features = ["derive"] }
crossterm = { version = "0.28" }
serde = { version = "1", features = ["derive"] }
serde_json = { version = "1" }
