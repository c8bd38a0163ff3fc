[package]
name = "before_colony"
version = "0.1.0"
edition = "2021"
publish = false

[dependencies]
hex = "0.4"
anyhow = "1"
serde_json = "1"
reqwest = { version = "0.12", default-features = false, features = ["json"] }
rustls = { version = "0.23", default-features = false, features = ["ring", "std"] }
wtransport = "*"
glam = "*"
wasm-bindgen = "0.2"
js-sys = "0.3"
web-sys = { version = "0.3", features = ["Window"] }
