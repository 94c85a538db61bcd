[package]
name = "sketches"
version = "0.1.0"
edition = "2021"
publish = false

[dependencies]

[dev-dependencies]
rand = "0.8"
rand_pcg = "0.3"
