[package]
name = "flappy_bevy"
version = "0.1.0"
edition = "2021"
publish = false

[dependencies]
bevy = { version = "0.9", default-features = false, features = ["bevy_asset", "bevy_winit", "bevy_core_pipeline", "bevy_render", "bevy_sprite", "bevy_text", "png", "x11"] }
bevy_rapier2d = { version = "0.19", default-features = false, features = ["dim2"] }
bevy_turborand = "0.4"
iyes_loopless = "0.9"
