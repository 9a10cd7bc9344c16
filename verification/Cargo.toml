[package]
name = "bevy_particles_and_trails"
version = "0.1.0"
edition = "2021"
publish = false

[dependencies]
bevy = { version = "0.19", default-features = false, features = ["std", "bevy_render", "bevy_core_pipeline"] }
bytemuck = { version = "1", features = ["derive"] }
