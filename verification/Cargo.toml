[package]
name = "aks_terminal"
version = "0.1.0"
edition = "2021"
publish = false

[dependencies]
vte = "*"
anyhow = "*"
bytemuck = { version = "*", features = ["derive"] }
font-kit = "*"
pathfinder_geometry = "*"
pollster = "*"
portable-pty = "*"
rand = "*"
wgpu = { version = "*", default-features = false, features = ["wgsl", "vulkan"] }
winit = { version = "*", default-features = false, features = ["x11", "rwh_06"] }
