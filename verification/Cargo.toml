[package]
name = "repe"
version = "0.1.0"
edition = "2021"
publish = false

[dependencies]
beve = "=7.3.0"
futures-channel = "=0.3.34"
futures-util = "=0.3.34"
js-sys = "=0.3.107"
parking_lot = "=0.12.5"
serde = { version = "=1.0.229", features = ["derive"] }
serde_json = "=1.0.154"
thiserror = "=2.0.21"
tokio = { version = "1", features = ["full"] }
tokio-tungstenite = "=0.30.0"
tokio-util = "0.7"
uniudp = "=1.0.0"
wasm-bindgen = "=0.2.130"
web-sys = { version = "=0.3.107", features = ["BinaryType", "CloseEvent", "Event", "EventTarget", "MessageEvent", "WebSocket", "ErrorEvent", "Window"] }
zstd = "=0.14.3"
