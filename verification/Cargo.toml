[package]
name = "voxel_world"
version = "0.1.0"
edition = "2021"
publish = false

[dependencies]
noise = { version = "0.8", default-features = false }
rand = "0.8"
cgmath = "0.18"
bytemuck = { version = "1", features = ["derive"] }
image = { version = "0.24", default-features = false, features = ["png"] }
wgpu = "0.16"
winit = { version = "0.28", default-features = false, features = ["x11"] }
