[package]
name = "wlin_pronet"
version = "0.1.0"
edition = "2021"
publish = false

[dependencies]
quick-xml = { version = "0.37", features = ["serialize"] }
url = "2"
reqwest = { version = "0.12", default-features = false, features = ["blocking"] }
serde = { version = "1", features = ["derive"] }
mdns-sd = "*"
wasm-bindgen = "0.2"
web-sys = "0.3"
