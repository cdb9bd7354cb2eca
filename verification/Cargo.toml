[package]
name = "vivid"
version = "0.1.0"
edition = "2021"
publish = false

[dependencies]
glam = { version = "=0.34.2", features = ["bytemuck"] }
log = "=0.4.35"
env_logger = "=0.11.11"
rand = "=0.10.3"
rustc-hash = "=2.1.3"
thiserror = "=2.0.21"
winit = "=0.30.13"
wgpu = "=30.0.1"
pollster = "=1.0.1"
bytemuck = { version = "=1.25.2", features = ["derive"] }
