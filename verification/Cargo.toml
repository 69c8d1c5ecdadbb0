[package]
name = "digit_classifier"
version = "0.1.0"
edition = "2021"
publish = false

[dependencies]
image = "=0.25.10"
ndarray = "=0.16.1"
ort = { version = "=2.0.0-rc.9", default-features = false, features = ["ndarray", "load-dynamic"] }
ort-sys = { version = "=2.0.0-rc.9", default-features = false }
serde-wasm-bindgen = "=0.6.5"
wasm-bindgen = "=0.2.129"
