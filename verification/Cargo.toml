[package]
name = "chord_script"
version = "0.1.0"
edition = "2021"
publish = false

[dependencies]
anyhow = "1"
clap = { version = "4", features = ["derive"] }
image = "0.24"
printpdf = { version = "0.7", features = ["embedded_images"] }
resvg = "0.45"
svg = "0.17"
tiny-skia = "0.11"
usvg = "0.45"
