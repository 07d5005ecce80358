[package]
name = "poke"
version = "0.1.0"
edition = "2021"
publish = false

[dependencies]
chrono = "0.4"
etcetera = "*"
ratatui = { version = "*", features = ["serde"] }
serde = { version = "1", features = ["derive"] }
toml = "*"
