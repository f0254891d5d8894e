[package]
name = "bubbles"
version = "0.1.0"
edition = "2021"
publish = false

[dependencies]
rand = "0.9"
bevy = { version = "0.15", default-features = false, features = ["bevy_asset", "bevy_core_pipeline", "bevy_render", "bevy_sprite", "bevy_winit", "x11"] }
