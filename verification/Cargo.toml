[package]
name = "dogchick"
version = "0.1.0"
edition = "2021"
publish = false

[dependencies]
fastrand = "1.7"
bevy = { version = "0.7", default-features = false, features = ["render", "bevy_winit", "png", "x11", "bevy_audio", "vorbis"] }
bevy_egui = "0.14"
bevy_spatial = "0.1"
ehttp = "0.2"
