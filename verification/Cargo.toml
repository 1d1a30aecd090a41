[package]
name = "raytracer"
version = "0.1.0"
edition = "2021"
publish = false

[dependencies]
console_error_panic_hook = "0.1"
console_log = "1"
env_logger = "0.10"
error-iter = "0.4"
log = "0.4"
pixels = "0.13"
pollster = "0.3"
wasm-bindgen = "0.2"
wasm-bindgen-futures = "0.4"
web-sys = { version = "0.3", features = ["Document", "Element", "Event", "EventTarget", "HtmlElement", "Node", "Window"] }
winit = "0.28"
winit_input_helper = "0.14"
