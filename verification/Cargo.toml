[package]
name = "vessel_traffic"
version = "0.1.0"
edition = "2021"
publish = false

[dependencies]
bevy = { version = "0.15", default-features = false, features = ["bevy_asset", "bevy_color", "bevy_core_pipeline", "bevy_gizmos", "bevy_pbr", "bevy_picking", "bevy_render", "bevy_scene", "bevy_state", "bevy_text", "bevy_ui", "bevy_window"] }
bevy_asset_loader = "0.22"
bevy_rand = { version = "0.9", features = ["wyrand"] }
bevy_water = "0.15"
rand = "0.8"
