[package]
name = "rgbpc"
version = "0.1.0"
edition = "2021"
publish = false

[dependencies]
regex = "1"
dirs = "5"
serde = { version = "1", features = ["derive"] }
toml = "0.8"
ratatui = "0.26"
crossterm = "0.27"
