[package]
name = "ray_marcher"
version = "0.1.0"
edition = "2021"
publish = false

[dependencies]
bytemuck = { version = "1", features = ["derive"] }
glam = { version = "0.29", features = ["bytemuck"] }
winit = "0.30"
wgpu = "22"
pollster = "0.3"
env_logger = "0.11"
log = "0.4"
wasm-bindgen = "0.2"
web-sys = { version = "0.3", features = ["Document", "Element", "HtmlElement", "HtmlCanvasElement", "KeyboardEvent", "MouseEvent", "EventTarget", "Node", "Window"] }
gloo = { version = "0.11", default-features = false, features = ["utils", "console"] }
