[package]
name = "raytracer"
version = "0.1.0"
edition = "2021"
publish = false

[dependencies]
anyhow = "1"
bytemuck = { version = "1", features = ["derive"] }
clap = { version = "4", features = ["derive"] }
env_logger = "0.11"
fastrand = "2"
glam = "0.29"
indicatif = { version = "0.17", features = ["rayon"] }
log = "0.4"
pollster = "0.3"
rayon = "1"
