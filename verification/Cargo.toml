[package]
name = "gitsect"
version = "0.1.0"
edition = "2021"
publish = false

[dependencies]
chrono = "0.4"
dirs = "5"
log = "0.4"
md5 = "0.7"
pyo3 = { version = "0.20", features = ["extension-module", "abi3-py37"] }
rayon = "1"
regex = "1"
serde = { version = "1", features = ["derive"] }
serde_json = "1"
thiserror = "1"

[dev-dependencies]
tempfile = "3"
