[package]
name = "omnomon"
version = "0.1.0"
edition = "2021"
publish = false

[dependencies]
battery = "0.7"
clap = { version = "4", features = ["derive"] }
crossterm = "0.28"
dirs = "5"
env_logger = "0.11"
log = "0.4"
nvml-wrapper = "0.10"
ratatui = "0.29"
serde = { version = "1", features = ["derive"] }
sysinfo = "0.33"
toml = "0.8"
