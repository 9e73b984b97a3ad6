[package]
name = "photomosaic"
version = "0.1.0"
edition = "2021"
publish = false

[dependencies]
bytemuck = { version = "*", features = ["derive"] }
chrono = "*"
image = { version = "*", default-features = false, features = ["png", "jpeg", "webp"] }
pollster = "*"
rand = "*"
serde = { version = "*", features = ["derive"] }
serde_json = "*"
wgpu = "*"
