[package]
name = "pac_window"
version = "0.1.0"
edition = "2021"
publish = false

[dependencies]
glam = "0.29"
winit = "0.30"
wgpu = "22"
