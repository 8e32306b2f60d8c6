[package]
name = "gravity_sim"
version = "0.1.0"
edition = "2021"
publish = false

[dependencies]
bytemuck = { version = "=1.25.2", features = ["derive"] }
glam = "=0.27.0"
pollster = "=0.3.0"
winit = { version = "0.29", default-features = false, features = ["x11", "rwh_06"] }
