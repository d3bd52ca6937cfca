[package]
name = "strangers"
version = "0.1.0"
edition = "2021"
publish = false

[dependencies]
rand = { version = "=0.7.3", features = ["wasm-bindgen"] }
bresenham = "=0.1.1"
cubic_spline = "=0.9.9"
wasm-bindgen = "=0.2.130"
console_error_panic_hook = "=0.1.7"
