[package]
name = "llama2_rs"
version = "0.1.0"
edition = "2021"
publish = false

[dependencies]
num_cpus = "*"
rand = { version = "*", features = ["small_rng"] }
rayon = "*"
