[package]
name = "kitabu_server"
version = "0.1.0"
edition = "2021"
publish = false

[dependencies]
axum = { version = "=0.8.9", features = ["ws"] }
chrono = "=0.4.45"
futures-util = "=0.3.34"
global-hotkey = "=0.9.0"
image = "=0.25.10"
notify-rust = { version = "=4.18.2", features = ["images"] }
tokio = { version = "=1.54.1", features = ["full"] }
