[package]
name = "canvas_link"
version = "0.1.0"
edition = "2021"
publish = false

[dependencies]
sdl2 = { version = "*", features = ["ttf", "image", "mixer"] }
anyhow = "*"
