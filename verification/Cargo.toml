[package]
name = "anon_tokens"
version = "0.1.0"
edition = "2021"
publish = false

[dependencies]
curve25519-dalek = { version = "4", features = ["digest"] }
sha2 = "0.10"
subtle = "2"
rand = "0.8"
pyo3 = { version = "0.20", features = ["extension-module"] }
