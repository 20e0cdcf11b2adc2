[package]
name = "hyprnav"
version = "0.1.0"
edition = "2021"
publish = false

[dependencies]
anyhow = "*"
crossterm = "*"
ratatui = "*"

[dev-dependencies]
serde_json = "*"
