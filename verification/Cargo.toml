[package]
name = "waw"
version = "0.1.0"
edition = "2021"
publish = false

[dependencies]
enum-map = "2"
js-sys = "0.3"
serde = { version = "1", features = ["derive"] }
serde-wasm-bindgen = "*"
wasm-bindgen = "0.2"
web-sys = { version = "0.3", features = ["AudioWorkletNodeOptions", "AudioWorkletProcessor", "Blob", "BlobPropertyBag", "EventTarget", "MessageEvent", "MessagePort", "Url"] }
