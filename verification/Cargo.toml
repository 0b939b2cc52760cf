[package]
name = "simple-chat"
version = "0.1.0"
edition = "2021"
publish = false

[dependencies]
chrono = "0.4"
dirs = "5"
indoc = "2"
ratatui = "0.29"
serde = { version = "1", features = ["derive"] }
toml = "0.8"
