[package]
name = "substantial"
version = "0.1.0"
edition = "2021"
publish = false

[dependencies]
anyhow = "1"
chrono = "0.4"
pyo3 = "0.22"
serde_json = "1"
serde-pyobject = "*"
wit-bindgen = "*"
