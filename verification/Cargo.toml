[package]
name = "tuneterm"
version = "0.1.0"
edition = "2021"
publish = false

[dependencies]
async-trait = "=0.1.92"
crossterm = "=0.29.0"
rand = "=0.10.3"
rand_chacha = "=0.10.0"
ratatui = "=0.30.2"
reqwest = { version = "=0.13.5", default-features = false }
rusqlite = "=0.41.1"
rustfft = "=6.4.1"
secrecy = "=0.10.3"
serde = { version = "=1.0.229", features = ["derive"] }
serde_json = "=1.0.154"
thiserror = "=2.0.21"
tokio = { version = "=1.54.1", features = ["io-util", "macros", "process", "rt", "sync", "time"] }
tokio-util = "=0.7.20"
unicode-segmentation = "=1.13.3"
url = "=2.5.8"
ytmapi-rs = { version = "=0.3.3", features = ["reqwest", "rustls", "serde_json"] }
