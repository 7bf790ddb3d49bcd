[package]
name = "mion"
version = "0.1.0"
edition = "2021"
publish = false

[dependencies]
anyhow = "1"
burn = { version = "0.18", default-features = false, features = ["std", "ndarray", "autodiff", "train"] }
image = { version = "0.25", default-features = false, features = ["webp", "png"] }
