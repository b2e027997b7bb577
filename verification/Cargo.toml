[package]
name = "arrayio"
version = "0.1.0"
edition = "2021"
publish = false

[dependencies]
hound = "3.5"
image = "0.24"
instant = "0.1"
rand = { version = "0.8", features = ["small_rng"] }
rodio = "0.17"
term_size = "0.3"
viuer = "0.6"
