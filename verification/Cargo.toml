[package]
name = "ion"
version = "0.1.0"
edition = "2021"
publish = false

[dependencies]
image = { version = "=0.25.10", default-features = false, features = ["png"] }
luminance = "=0.47.0"
luminance-gl = "=0.19.1"
nalgebra = { version = "=0.35.0", default-features = false, features = ["std"] }
openal = "=0.2.2"
time = "=0.1.45"
vorbis = "=0.1.0"
