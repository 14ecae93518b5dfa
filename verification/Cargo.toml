[package]
name = "rubin_love_tui"
version = "0.1.0"
edition = "2021"
publish = false

[dependencies]
chrono = "*"
crossterm = "*"
ratatui = "*"
serde = { version = "*", features = ["derive"] }
serde_json = "*"
tungstenite = { version = "*", features = ["rustls-tls-webpki-roots"] }
