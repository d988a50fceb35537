[package]
name = "raytracer"
version = "0.1.0"
edition = "2021"
publish = false

[dependencies]
bytemuck = "1"
glamx = "*"
image = { version = "*", default-features = false, features = ["png", "jpeg", "hdr"] }
wgpu = "*"
