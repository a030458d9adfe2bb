[package]
name = "text_render"
version = "0.1.0"
edition = "2021"
publish = false

[dependencies]
enum-map = { version = "2", default-features = false }
tiny-skia = "0.11"
ttf-parser = "0.20"
