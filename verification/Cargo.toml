[package]
name = "stonktop"
version = "0.3.0"
edition = "2021"
publish = false

[dependencies]
anyhow = "1"
async-trait = "*"
chrono = { version = "0.4", features = ["serde"] }
clap = { version = "4", features = ["derive", "env"] }
crossterm = "*"
dirs = "*"
futures-util = "*"
notify-rust = "4"
ratatui = "*"
reqwest = { version = "0.12", default-features = false, features = ["json", "rustls-tls"] }
serde = { version = "1", features = ["derive"] }
serde_json = "1"
tokio = { version = "1", features = ["rt-multi-thread", "macros", "time"] }
toml = "*"
