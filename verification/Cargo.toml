[package]
name = "allio"
version = "0.1.0"
edition = "2021"
publish = false

[dependencies]
ratatui = "0.29"
crossterm = "0.28"
serde = { version = "1", features = ["derive"] }
serde_json = "1"
toml = "0.8"
dirs = "5"
sysinfo = "0.33"
color-eyre = "0.6"
lazy_static = "1"
once_cell = "1"
