[package]
name = "voxel_terrain"
version = "0.1.0"
edition = "2021"
publish = false

[dependencies]
bevy = { version = "=0.17.3", default-features = false, features = ["std", "bevy_pbr", "bevy_ui", "bevy_text", "bevy_window", "default_font"] }
bytemuck = { version = "1", features = ["derive"] }
wgpu = "26"
