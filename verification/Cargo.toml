[package]
name = "webtonic"
version = "0.1.0"
edition = "2021"
publish = false

[dependencies]
bytes = "1"
futures = "0.3"
http = "0.2"
http-body = "0.4"
js-sys = "0.3"
log = "0.4"
tokio = { version = "1", features = ["sync", "rt"] }
tokio-stream = "0.1"
tonic = "0.4"
tower-service = "0.3"
warp = "0.3"
wasm-bindgen = "0.2"
wasm-bindgen-futures = "0.4"
web-sys = { version = "0.3", features = ["BinaryType", "ErrorEvent", "MessageEvent", "WebSocket", "console"] }

[dev-dependencies]
prost = "0.7"
