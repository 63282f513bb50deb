[package]
name = "ai_gym"
version = "0.1.0"
edition = "2021"
publish = false

[dependencies]
rand = "=0.9.5"
lazy_static = "=1.5.1"
avian2d = { version = "=0.4.1", default-features = false, features = ["2d", "f32", "parry-f32", "bevy_picking"] }
avian3d = { version = "=0.4.1", default-features = false, features = ["3d", "f32", "parry-f32", "bevy_picking"] }

[dependencies.bevy]
version = "=0.17.3"
default-features = false
features = ["std", "async_executor", "multi_threaded", "bevy_asset", "bevy_color", "bevy_core_pipeline", "bevy_render", "bevy_sprite", "bevy_sprite_render", "bevy_pbr", "bevy_mesh", "bevy_camera", "bevy_light", "bevy_shader", "bevy_image", "bevy_state", "bevy_text", "default_font", "bevy_ui", "bevy_ui_render", "bevy_window", "bevy_picking", "bevy_mesh_picking_backend", "bevy_sprite_picking_backend", "bevy_ui_picking_backend", "bevy_gizmos", "bevy_log"]
