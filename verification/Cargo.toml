[package]
name = "renderer"
version = "0.1.0"
edition = "2021"
publish = false

[dependencies]
bytemuck = { version = "1", features = ["derive"] }
eyre = "0.6"
glam = { version = "0.25", features = ["bytemuck"] }
naga_oil = "0.13"
notify = "6"
slotmap = "1"
thiserror = "1"
tracing = "0.1"
wgpu = { version = "0.19", features = ["naga-ir"] }
