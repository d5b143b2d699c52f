[package]
name = "homebrew_tui"
version = "0.1.0"
edition = "2021"
publish = false

[dependencies]
anyhow = "1"
crossterm = "0.26"
ratatui = "0.20"
serde = { version = "1", features = ["derive"] }
serde_json = "1"
unicode-width = "0.1"
