[package]
name = "biowclib_mz"
version = "0.1.0"
edition = "2021"
publish = false

[dependencies]
mzcore = "=0.1.0"
wasm-bindgen = "=0.2.129"
