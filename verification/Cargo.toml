[package]
name = "dev_panel"
version = "0.1.0"
edition = "2021"
publish = false

[dependencies]
crossterm = "0.28"
nix = { version = "0.29", features = ["signal", "user"] }
ratatui = "0.29"
serde = { version = "1", features = ["derive"] }
sysinfo = "0.33"
toml = "0.8"
