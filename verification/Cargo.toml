[package]
name = "kord"
version = "0.1.0"
edition = "2021"
publish = false

[dependencies]
anyhow = "1"
console_error_panic_hook = "0.1"
futures-timer = "3"
js-sys = "0.3"
rand = "0.8"
rayon = "1"
wasm-bindgen = "0.2"
wee_alloc = "0.4"
