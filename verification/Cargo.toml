[package]
name = "ssht"
version = "0.1.0"
edition = "2021"
publish = false

[dependencies]
age = "0.11"
anyhow = "1"
chrono = "0.4"
clap = { version = "4", features = ["derive"] }
crossterm = "0.28"
dirs = "5"
libc = "0.2"
nucleo-matcher = "0.3"
ratatui = "0.29"
rpassword = "7"
rusqlite = { version = "0.32", features = ["bundled"] }
serde = { version = "1", features = ["derive"] }
shellexpand = "3"
tempfile = "3"
tokio = { version = "1", features = ["full"] }
toml = "0.8"
