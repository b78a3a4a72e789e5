[package]
name = "pixel_terrain"
version = "0.1.0"
edition = "2021"
publish = false

[dependencies]
rand = "=0.8.8"
lerp = "=0.5.0"
bevy = { version = "=0.6.1", default-features = false, features = ["render", "png", "bevy_winit", "x11"] }
pin-project = "=1.0.12"
