[package]
name = "niri_bridge"
version = "0.1.0"
edition = "2021"
publish = false

[dependencies]
niri-ipc = "*"
serde = { version = "*", features = ["derive"] }
serde_json = "*"
