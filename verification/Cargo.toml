[package]
name = "fyrox-graphics-wgpu"
version = "0.1.0"
edition = "2021"
publish = false

[dependencies]
wgpu = { version = "=30.0.1", features = ["spirv", "noop"] }
naga = { version = "=30.0.1", features = ["glsl-in", "spv-out"] }
winit = "=0.30.13"
log = "=0.4.35"
fyrox-graphics = "=1.0.1"
fyrox-core = "=1.0.1"
