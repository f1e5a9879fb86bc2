[package]
name = "web_tracing"
version = "0.1.0"
edition = "2021"
publish = false

[dependencies]
nalgebra-glm = "=0.21.0"
rand = { version = "=0.7.3", features = ["small_rng"] }
rand_core = "=0.5.1"
wasm-bindgen = "=0.2.129"
rocket = { version = "0.5", features = ["json"] }
rocket_cors = "0.6"
serde = { version = "1", features = ["derive"] }
