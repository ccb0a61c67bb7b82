[package]
name = "powers_of_tau"
version = "0.1.0"
edition = "2021"
publish = false

[dependencies]
ark-bls12-381 = { version = "0.3.0", features = ["std"] }
ark-ec = { version = "0.3.0", features = ["std"] }
ark-ff = { version = "0.3.0", features = ["std"] }
hex = "0.4"
rand = "0.8"
rayon = "1"
wasm-bindgen = "0.2"
wasm-bindgen-rayon = "1.0"
console_error_panic_hook = "0.1"
