[package]
name = "vectortracer"
version = "0.1.0"
edition = "2021"
publish = false

[dependencies]
visioncortex = "*"
serde = { version = "1", features = ["derive"] }
tsify = "*"
wasm-bindgen = "0.2"
web-sys = { version = "0.3", features = ["console", "ImageData"] }
console_log = "1"
