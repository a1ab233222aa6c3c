[package]
name = "regrs"
version = "0.1.0"
edition = "2021"
publish = false

[dependencies]
rayon = "1"
pyo3 = { version = "0.20", features = ["extension-module"] }
numpy = "0.20"
ndarray-linalg = "0.16"
