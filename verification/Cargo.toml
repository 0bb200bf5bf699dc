[package]
name = "spherecast"
version = "0.1.0"
edition = "2021"
publish = false

[dependencies]
base64 = "0.22"
png = "0.17"
wasm-bindgen = "0.2"
