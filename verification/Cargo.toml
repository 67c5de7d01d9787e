[package]
name = "doom_render"
version = "0.1.0"
edition = "2021"
publish = false

[dependencies]
log = "0.4"
pixels = { version = "0.17", default-features = false }
pollster = "0.4"
sdl2 = { version = "0.38", default-features = false, features = ["unsafe_textures"] }
softbuffer = { version = "0.4", default-features = false, features = ["x11", "x11-dlopen"] }
wgpu = { version = "29", default-features = false, features = ["wgsl"] }
winit = { version = "0.30", default-features = false, features = ["rwh_06", "x11"] }
