[package]
name = "treeframe"
version = "0.1.0"
edition = "2021"
publish = false

[dependencies]
num_cpus = "1"
glob = "0.3"
rayon = "1"
once_cell = "1"
parking_lot = "0.12"
oxyroot = "0.1"
arrow = { version = "54", default-features = false }
parquet = { version = "54", default-features = false, features = ["arrow", "snap", "brotli", "flate2", "lz4", "zstd"] }
polars = { version = "0.46", default-features = false, features = ["diagonal_concat"] }
pyo3 = { version = "0.23", features = ["extension-module", "abi3-py39"] }
numpy = "0.23"
pyo3-polars = "0.20"
