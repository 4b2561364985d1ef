[package]
name = "typing_game"
version = "0.1.0"
edition = "2021"
publish = false

[dependencies]
anyhow = "1"
chrono = "0.4"
crossterm = "0.28"
glob = "0.3"
rand = "0.9"
ratatui = "0.29"
rusqlite = { version = "0.32", features = ["bundled"] }
