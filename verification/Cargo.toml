[package]
name = "raytracer"
version = "0.1.0"
edition = "2021"
publish = false

[dependencies]
minifb = "0.15"
rand = "0.7"
rayon = "1"
