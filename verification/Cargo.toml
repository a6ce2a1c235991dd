[package]
name = "gpu_list"
version = "0.1.0"
edition = "2021"
publish = false

[dependencies]
bevy = { version = "0.10", default-features = false, features = ["bevy_render"] }
wgpu = "0.15"
