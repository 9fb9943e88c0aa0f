[package]
name = "twordle"
version = "0.1.0"
edition = "2021"
publish = false

[dependencies]
chrono = "0.4"
rand = "0.8"
yew = { version = "0.21", features = ["csr"] }
yew-router = "0.18"
web-sys = { version = "0.3", features = ["Window", "KeyboardEvent", "Event"] }
wasm-bindgen = "0.2"
gloo-events = "0.2"
