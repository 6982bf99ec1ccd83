[package]
name = "engine"
version = "0.1.0"
edition = "2021"
publish = false

[dependencies]
bytemuck = { version = "1", features = ["derive"] }
glam = "0.30"
wgpu = "24"
winit = "0.30"
