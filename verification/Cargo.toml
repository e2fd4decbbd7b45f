[package]
name = "omakure"
version = "0.1.0"
edition = "2021"
publish = false

[dependencies]
serde = { version = "*", features = ["derive"] }
serde_json = "*"
toml = "*"
crossterm = "*"
ratatui = "*"
