[package]
name = "raytracer"
version = "0.1.0"
edition = "2021"
publish = false

[dependencies]
hashbrown = "=0.11.2"
itertools = "=0.10.5"
rayon = "=1.12.0"
indicatif = "0.17"
