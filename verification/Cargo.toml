[package]
name = "spsa"
version = "0.1.0"
edition = "2021"
publish = false

[dependencies]
rand = "0.8"
packed_simd_2 = "*"

[dev-dependencies]
approx = "0.5"
