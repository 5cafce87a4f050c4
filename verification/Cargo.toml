[package]
name = "text_brush"
version = "0.1.0"
edition = "2021"
publish = false

[dependencies]
glyph_brush = "*"
