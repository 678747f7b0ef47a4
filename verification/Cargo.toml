[package]
name = "todomvc"
version = "0.1.0"
edition = "2021"
publish = false

[dependencies]
respo = "*"
respo_state_derive = "*"
serde = { version = "1", features = ["derive"] }
serde_json = "1"
uuid = { version = "1", features = ["v4"] }
wasm-bindgen = "0.2"
web-sys = { version = "0.3", features = ["Node", "Element", "HtmlElement"] }
console_error_panic_hook = "0.1"
