[package]
name = "git_editor"
version = "0.1.0"
edition = "2021"
publish = false

[dependencies]
chrono = "0.4"
clipboard = "0.5"
env_logger = "0.7"
image = "0.22"
imgui = "0.3"
imgui-wgpu = "0.5"
imgui-winit-support = "0.3"
log = "0.4"
preferences = "1"
serde = { version = "1", features = ["derive"] }
wgpu = "0.4"
winit = "0.20"
