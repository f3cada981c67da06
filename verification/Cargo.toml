[package]
name = "radioboat"
version = "0.1.0"
edition = "2021"
publish = false

[dependencies]
anyhow = "1"
arboard = { version = "3", default-features = false }
clap = { version = "4", features = ["derive"] }
clap_complete = "4"
crossterm = { version = "0.28", features = ["event-stream"] }
futures = "0.3"
objc2 = "*"
objc2-foundation = "*"
objc2-media-player = "*"
ratatui = "0.29"
reqwest = { version = "0.12", default-features = false, features = ["rustls-tls"] }
serde = { version = "1", features = ["derive"] }
serde_json = "1"
shellexpand = "3"
tokio = { version = "1", features = ["full"] }
toml = "0.8"
zbus = { version = "5", default-features = false, features = ["tokio"] }
