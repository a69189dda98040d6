[package]
name = "mm_ui"
version = "0.1.0"
edition = "2021"
publish = false

[dependencies]
serde_json = "1"
serde = { version = "1", features = ["derive"] }
anyhow = "1"
ratatui = "0.29"
crossterm = "0.28"
walkdir = "2"
