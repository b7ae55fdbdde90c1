[package]
name = "rewind"
version = "0.7.0"
edition = "2021"
publish = false

[dependencies]
anyhow = "1"
chrono = "0.4"
clap = { version = "4", features = ["derive"] }
crossterm = "*"
dirs = "*"
git2 = "*"
nucleo-matcher = "*"
ratatui = "*"
ratatui-textarea = "*"
rusqlite = { version = "*", features = ["bundled"] }
serde = { version = "1", features = ["derive"] }
serde_json = "1"
tokio = { version = "1", features = ["rt-multi-thread", "net", "io-util", "macros"] }
