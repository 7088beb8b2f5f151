[package]
name = "arkanoid"
version = "0.1.0"
edition = "2021"
publish = false

[dependencies]
bytemuck = { version = "1", features = ["derive"] }
cgmath = "0.18"
chrono = "0.4"
env_logger = "0.9"
image = { version = "0.24", default-features = false, features = ["png"] }
pollster = "0.2"
wgpu = "0.14"
winit = "0.27"
