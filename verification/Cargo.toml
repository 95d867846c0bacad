[package]
name = "fractal"
version = "1.0.0"
edition = "2021"
publish = false

[dependencies]
clap = "2.34"
image = { version = "0.24", default-features = false, features = ["png", "jpeg", "bmp", "tiff"] }
num = "0.4"
rayon = "1"
