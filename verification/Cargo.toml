[package]
name = "nyx_tui"
version = "0.2.0"
edition = "2021"
publish = false

[dependencies]
anyhow = "1"
crossterm = "0.28"
futures-util = "0.3"
home = "0.5"
md-5 = "0.10"
miniz_oxide = "0.8"
ratatui = "0.29"
reqwest = { version = "0.12", default-features = false, features = ["json", "cookies", "rustls-tls", "stream"] }
serde = { version = "1", features = ["derive"] }
serde_json = "1"
tokio = { version = "1", features = ["rt-multi-thread", "macros", "fs", "io-util", "sync", "time"] }
