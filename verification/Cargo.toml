[package]
name = "pynokhwa"
version = "0.1.0"
edition = "2021"
publish = false

[dependencies]
image = { version = "=0.25.10", default-features = false }
nokhwa = { version = "=0.10.11", features = ["camera-sync-impl", "input-avfoundation", "input-msmf"] }
once_cell = "=1.21.4"
parking_lot = "=0.12.5"
pyo3 = { version = "=0.25.1", features = ["extension-module", "abi3-py38"] }
