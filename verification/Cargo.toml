[package]
name = "ani-tui"
version = "0.1.0"
edition = "2021"
publish = false

[dependencies]
color-eyre = "0.6"
crossterm = { version = "0.28", features = ["event-stream"] }
dirs = "6"
futures = "0.3"
image = { version = "0.25", default-features = false, features = ["png", "jpeg", "webp", "gif"] }
ratatui = "0.29"
ratatui-image = "8"
reqwest = { version = "0.12", default-features = false, features = ["json", "rustls-tls", "blocking"] }
serde = { version = "1", features = ["derive"] }
serde_json = "1"
tokio = { version = "1", features = ["full"] }
tokio-util = "0.7"
toml = "0.8"
