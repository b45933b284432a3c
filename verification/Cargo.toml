[package]
name = "lenna_cli"
version = "0.1.0"
edition = "2021"
publish = false

[dependencies]
lenna_core = "=0.2.0"
image = { version = "=0.23.14", default-features = false, features = ["png", "jpeg"] }
zip = { version = "=9.2.2", default-features = false, features = ["deflate"] }
libloading = "=0.9.0"
serde_json = "=1.0.154"
serde_yaml = "=0.8.26"
structopt = "=0.3.26"
wasm-bindgen = "=0.2.130"
console_error_panic_hook = "=0.1.7"
