[package]
name = "cosmic_session"
version = "0.1.0"
edition = "2021"
publish = false

[dependencies]
cosmic-protocols = { version = "=0.2.0", default-features = false, features = ["client"] }
serde = { version = "=1.0.229", features = ["derive"] }
serde_json = "=1.0.154"
wayland-client = "=0.31.15"
wayland-protocols = { version = "=0.32.13", features = ["client", "staging"] }
