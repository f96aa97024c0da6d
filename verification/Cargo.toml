[package]
name = "chip8"
version = "0.1.0"
edition = "2021"

[dependencies]
js-sys = "0.3"
wasm-bindgen = "0.2"
