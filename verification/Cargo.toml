[package]
name = "prioritize"
version = "0.1.0"
edition = "2021"
publish = false

[dependencies]
anyhow = "1"
chrono = "0.4"
crossterm = "0.28"
dirs = "5"
ratatui = "0.29"
rusqlite = { version = "0.32", features = ["bundled"] }
tui-textarea = "0.7"
