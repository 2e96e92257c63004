[package]
name = "pipegate"
version = "0.1.0"
edition = "2021"
publish = false

[dependencies]
alloy = { version = "*", default-features = false }
axum = "*"
console_error_panic_hook = "*"
dashmap = "*"
ethers = { version = "2", default-features = false, features = ["abigen"] }
js-sys = "*"
serde = { version = "1", features = ["derive"] }
serde_json = "1"
thiserror = "*"
tower-service = "*"
wasm-bindgen = "*"
wasm-bindgen-futures = "*"
worker = { version = "*", features = ["http", "axum"] }
