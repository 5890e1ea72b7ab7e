[package]
name = "gpu_core"
version = "0.1.0"
edition = "2021"
publish = false

[dependencies]
ash = "0.38"
ash-window = "0.13"
gpu-allocator = { version = "0.27", default-features = false, features = ["vulkan"] }
winit = "0.30"
