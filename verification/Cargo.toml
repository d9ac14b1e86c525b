[package]
name = "voxel_world"
version = "0.1.0"
edition = "2021"
publish = false

[dependencies]
arrayvec = "=0.7.8"
bevy = { version = "=0.17.3", default-features = false, features = ["std"] }
rand = "0.10"
ron = "0.12"
lalrpop-util = "0.23"
