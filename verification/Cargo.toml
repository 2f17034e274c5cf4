[package]
name = "raytracer"
version = "0.1.0"
edition = "2021"
publish = false

[dependencies]
fastrand = "1"
indicatif = "0.17"
rand = "0.8"
rand_distr = "0.4"
