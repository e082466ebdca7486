[package]
name = "pytest_fastcollect"
version = "0.1.0"
edition = "2021"
publish = false

[dependencies]
rustpython-parser = "*"
walkdir = "2"
rayon = "1"
serde = { version = "1", features = ["derive"] }
serde_json = "1"
pyo3 = "0.23"
