[package]
name = "fractal_engine"
version = "0.1.0"
edition = "2021"
publish = false

[dependencies]
rand = "0.8"
num_cpus = "1"
num-complex = "0.4"
rayon = "1"
image = { version = "0.24", default-features = false, features = ["png"] }
chrono = "0.4"
parking_lot = "0.12"
