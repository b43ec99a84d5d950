[package]
name = "rl_visibility"
version = "0.1.0"
edition = "2021"
publish = false

[dependencies]
gridbugs = { version = "=0.10.0", features = ["chargrid", "chargrid_wgpu", "coord_2d", "direction", "entity_table", "rgb_int", "shadowcast", "spatial_table"] }
