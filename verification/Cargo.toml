[package]
name = "raytracer"
version = "0.1.0"
edition = "2021"
publish = false

[dependencies]
rand = "0.7"
image = { version = "0.23", default-features = false, features = ["png", "jpeg"] }
