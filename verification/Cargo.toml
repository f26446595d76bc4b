[package]
name = "uno_server"
version = "0.1.0"
edition = "2021"
publish = false

[dependencies]
rand = "0.8"
uuid = { version = "1", features = ["v4"] }
serde = { version = "1", features = ["derive"] }
serde_json = "1"
thiserror = "1"
tokio = { version = "1", features = ["full"] }
warp = "0.3"
futures-util = "0.3"
futures = "0.3"
tokio-tungstenite = "0.21"
ratatui = "0.26"
crossterm = "0.27"
