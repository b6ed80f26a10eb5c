[package]
name = "preferz"
version = "0.1.0"
edition = "2021"
publish = false

[dependencies]
uuid = { version = "=1.29.0", features = ["v4", "serde"] }
serde = { version = "=1.0.229", features = ["derive"] }
serde_json = "=1.0.154"
euclid = { version = "=0.22.14", features = ["serde"] }
rusqlite = "=0.32.1"
egui = "=0.30.0"
log = "=0.4.35"
image = { version = "=0.25.10", default-features = false, features = ["png", "jpeg"] }
