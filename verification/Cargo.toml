[package]
name = "tetro_tui"
version = "0.1.0"
edition = "2021"
publish = false

[dependencies]
falling-tetromino-engine = { version = "~1.1", features = ["serde"] }
crossterm = { version = "=0.29.0", features = ["serde"] }
chrono = "=0.4.45"
clap = { version = "=4.6.7", features = ["derive", "cargo"] }
dirs = "=6.0.0"
serde = { version = "=1.0.229", features = ["derive"] }
serde_json = "=1.0.154"
serde_with = { version = "=3.24.0", features = ["json"] }
