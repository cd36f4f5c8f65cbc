[package]
name = "engine"
version = "0.1.0"
edition = "2021"
publish = false

[dependencies]
as-any = "0.3"
cgmath = "0.18"
fast-surface-nets = "0.2"
gl = "0.14"
glfw = "*"
image = { version = "0.24", default-features = false, features = ["png", "jpeg"] }
lazy_static = "1"
libnoise = "1"
ndarray = "0.15"
rapier3d = "0.22"
russimp = "3"
rusttype = { version = "0.9", features = ["gpu_cache"] }
