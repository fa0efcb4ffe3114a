[package]
name = "render"
version = "0.1.0"
edition = "2021"
publish = false

[dependencies]
bytemuck = "=1.25.2"
glam = "=0.30.10"
wgpu = "=25.0.2"
fontdue = "=0.9.5"
winit = "=0.30.13"
gltf = { version = "1", default-features = false, features = ["utils"] }
image = { version = "0.25", default-features = false, features = ["png", "jpeg", "bmp"] }
