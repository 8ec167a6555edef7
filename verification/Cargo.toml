[package]
name = "terminal_orbit"
version = "0.1.0"
edition = "2021"
publish = false

[dependencies]
crossterm = "0.28"
drawille = "0.3"
ratatui = "0.29"
serde = { version = "1", features = ["derive"] }
toml = "0.8"
