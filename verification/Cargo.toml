[package]
name = "deskhop"
version = "0.1.0"
edition = "2021"
publish = false

[dependencies]
serde = { version = "1", features = ["derive"] }
serde_json = "=1.0.154"
log = "=0.4.35"
simplelog = "=0.12.2"
global-hotkey = "=0.6.4"
tray-icon = "0.19"
winit = { version = "0.29", default-features = false }
