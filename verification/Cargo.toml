[package]
name = "locomotion"
version = "0.1.0"
edition = "2021"
publish = false

[dependencies]
bevy = { version = "=0.14.2", default-features = false }
bevy_rapier3d = { version = "=0.27.0", default-features = false, features = ["dim3", "headless"] }
console_error_panic_hook = "=0.1.7"
wasm-bindgen = "=0.2.129"
