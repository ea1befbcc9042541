[package]
name = "voxel_stream"
version = "0.1.0"
edition = "2021"
publish = false

[dependencies]
bytemuck = "1"
nalgebra = "=0.33.3"
png = "=0.17.16"
vulkano = "=0.34.2"
winit = "=0.28.7"
