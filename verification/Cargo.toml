[package]
name = "platformer"
version = "0.1.0"
edition = "2021"
publish = false

[dependencies]
bevy = { version = "0.9", default-features = false, features = ["bevy_winit", "render", "x11"] }
rand = "0.8"
