[package]
name = "rogue_mayor"
version = "0.1.0"
edition = "2021"
publish = false

[dependencies]
rand = "0.4"
sdl2 = { version = "0.29", features = ["image", "gfx"] }
