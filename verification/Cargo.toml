[package]
name = "typst-docx"
version = "0.1.0"
edition = "2021"
publish = false

[dependencies]
hayagriva = "*"
rustc-hash = "2"
tiny-skia = "0.11"
ttf-parser = "0.25"
