[package]
name = "rcs_flight"
version = "0.1.0"
edition = "2021"
publish = false

[dependencies]
avian2d = { version = "=0.1.2", default-features = false, features = ["2d", "default-collider", "f32", "parry-f32"] }
avian3d = { version = "=0.1.2", default-features = false, features = ["3d", "default-collider", "f32", "parry-f32"] }
bevy = { version = "=0.14.2", default-features = false, features = ["bevy_asset"] }
rand = "0.8"
