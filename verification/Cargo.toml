[package]
name = "raytracer"
version = "0.1.0"
edition = "2021"
publish = false

[dependencies]
rand = "0.8"
clap = { version = "3", features = ["derive"] }
image = "0.24"
crossbeam-utils = "0.8"
