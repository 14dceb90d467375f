[package]
name = "fractal_show"
version = "0.1.0"
edition = "2021"
publish = false

[dependencies]
rand = "=0.9.5"
bevy = { version = "=0.17.3", default-features = false, features = ["std", "multi_threaded", "bevy_asset", "bevy_window", "bevy_sprite_render", "bevy_text", "default_font"] }
