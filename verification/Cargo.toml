[package]
name = "voxel_terrain"
version = "0.1.0"
edition = "2021"
publish = false

[dependencies]
itertools = "0.13"
noise-algebra = "=0.1.28"
