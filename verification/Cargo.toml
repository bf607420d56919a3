[package]
name = "planit"
version = "0.1.0"
edition = "2021"
publish = false

[dependencies]
better-panic = "*"
chrono = { version = "*", features = ["serde"] }
clap = { version = "*", features = ["derive"] }
colored = "*"
crossterm = "*"
directories = "*"
log = "*"
ratatui = "*"
serde = { version = "*", features = ["derive"] }
serde_json = "*"
tui-logger = "*"
