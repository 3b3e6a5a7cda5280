[package]
name = "tiled_renderer"
version = "0.1.0"
edition = "2021"
publish = false

[dependencies]
egui = { version = "*", default-features = false }
num_cpus = "*"
quaternion = "*"
rand = "*"
vecmath = "*"
