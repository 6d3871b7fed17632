[package]
name = "voxel_mesh"
version = "0.1.0"
edition = "2021"
publish = false

[dependencies]
byteorder = "1"
cgmath = "0.16"
glium = "0.25"
glutin = "0.21"
