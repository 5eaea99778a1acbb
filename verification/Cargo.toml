[package]
name = "lucid"
version = "0.1.0"
edition = "2021"
publish = false

[dependencies]
anyhow = "=1.0.104"
env_logger = { version = "=0.10.2", default-features = false }
glam = "=0.24.2"
image = { version = "=0.24.9", default-features = false, features = ["png"] }
log = "=0.4.34"
rodio = { version = "0.17", default-features = false, features = ["wav"] }
serde = { version = "=1.0.229", features = ["derive"] }
toml = "=0.8.23"
winit = { version = "0.28", default-features = false, features = ["x11"] }
