[package]
name = "soshalthing_yew"
version = "0.1.0"
edition = "2021"
publish = false

[dependencies]
serde = { version = "1", features = ["derive"] }
serde_json = "1"
rand = "0.8"
html-escape = "0.2"
log = "0.4"
yew = "0.19"
yew-agent = "0.1"
gloo-storage = "0.2"
gloo-timers = "0.2"
gloo-utils = "0.1"
js-sys = "0.3"
wasm-bindgen = "0.2"
web-sys = { version = "0.3", features = ["Window", "Location", "UrlSearchParams"] }
reqwest = { version = "0.11", default-features = false, features = ["json"] }
