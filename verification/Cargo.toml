[package]
name = "model_rig"
version = "0.1.0"
edition = "2021"
publish = false

[dependencies]
arboard = { version = "3", default-features = false }
env_logger = { version = "0.11", default-features = false }
glam = "0.30"
log = "0.4"
mlua = { version = "0.11", features = ["lua54", "vendored"] }
pollster = "0.4"
rfd = "0.15"
wgpu = { version = "*", default-features = false }
winit = "0.30"
