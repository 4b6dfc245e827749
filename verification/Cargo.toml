[package]
name = "renderer3d"
version = "0.1.0"
edition = "2021"
publish = false

[dependencies]
anyhow = "1"
sdl2 = { version = "0.37", features = ["gfx"] }
