[package]
name = "v4"
version = "0.1.0"
edition = "2021"
publish = false

[dependencies]
uuid = { version = "=1.29.0", features = ["v4"] }
thiserror = "=2.0.21"
crossbeam-channel = "=0.5.17"
wgpu = { version = "=28.0.0", default-features = false, features = ["std", "wgsl", "spirv", "vulkan", "parking_lot"] }
winit = { version = "=0.30.13", default-features = false, features = ["rwh_06", "x11"] }
winit_input_helper = "=0.17.0"
glyphon = "=0.10.0"
egui = { version = "=0.33.3", default-features = false }
egui_winit_platform = "=0.28.0"
bytemuck = { version = "=1.25.2", features = ["derive"] }
nalgebra = { version = "=0.34.2", default-features = false, features = ["std"] }
tobj = "=4.0.5"
image = { version = "=0.25.10", default-features = false, features = ["hdr", "png"] }
tokio = { version = "=1.54.1", features = ["rt-multi-thread", "fs"] }
async-scoped = { version = "=0.9.0", features = ["use-tokio"] }
async-trait = "=0.1.92"
downcast-rs = "=2.0.2"
pollster = "=0.4.0"
bevy_mikktspace = "=0.16.1"
