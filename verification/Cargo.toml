[package]
name = "aimc"
version = "0.1.0"
edition = "2021"
publish = false

[dependencies]
anpp = "=2.0.0"
scroll = "=0.13.0"
scroll_derive = "=0.13.2"
arraydeque = "=0.5.1"
arrayvec = "=0.4.12"
uom = "=0.38.0"
gcode = "=0.5.2"
wasm-bindgen = "=0.2.130"
js-sys = "=0.3.107"
web-sys = { version = "=0.3.107", features = ["Window", "Performance", "console"] }
console_error_panic_hook = "=0.1.7"
wee_alloc = "=0.4.5"
