[package]
name = "bevy_aspect_ratio_mask"
version = "0.1.0"
edition = "2021"
publish = false

[dependencies]
bevy = { version = "0.16", default-features = false, features = ["std", "async_executor", "bevy_color", "bevy_picking", "bevy_ui", "bevy_window"] }
