[package]
name = "nes_ui"
version = "0.1.0"
edition = "2021"
publish = false

[dependencies]
lz4_flex = "=0.11.6"
serde = { version = "=1.0.229", features = ["derive"] }
serde_json = "=1.0.154"
chrono = "0.4"
rayon = "1"
image = { version = "0.25", default-features = false, features = ["png", "jpeg", "gif", "webp", "bmp"] }
reqwest = { version = "0.12", default-features = false, features = ["blocking", "rustls-tls"] }
