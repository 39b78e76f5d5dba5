[package]
name = "painter"
version = "0.1.0"
edition = "2021"
publish = false

[dependencies]
ash = "=0.38.0"
ash-window = "=0.13.0"
crossbeam = "=0.8.5"
glam = "=0.30.10"
gpu-allocator = { version = "=0.27.0", default-features = false, features = ["vulkan"] }
hashbrown = "=0.15.5"
image = { version = "0.25", default-features = false, features = ["png"] }
slotmap = "=1.1.1"
strum = { version = "=0.26.3", features = ["derive"] }
thiserror = "=1.0.69"
winit = "=0.30.13"
