[package]
name = "render_core"
version = "0.1.0"
edition = "2021"
publish = false

[dependencies]
bytemuck = { version = "=1.25.2", features = ["derive"] }
glam = "0.30"
log = "=0.4.34"
console_log = "=1.1.0"
console_error_panic_hook = "=0.1.7"
wasm-bindgen = "=0.2.129"
wasm-bindgen-futures = "=0.4.79"
web-sys = { version = "=0.3.106", features = ["Window", "Document", "Element", "HtmlCanvasElement", "EventTarget", "Event", "UiEvent", "MouseEvent", "WheelEvent", "TouchEvent", "TouchList", "Touch", "AddEventListenerOptions"] }
wgpu = "=25.0.2"
