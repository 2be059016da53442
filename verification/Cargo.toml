[package]
name = "zip_writer"
version = "0.1.0"
edition = "2021"
publish = false

[dependencies]
crc = "3"
futures = "0.3"
log = "0.4"
send_wrapper = "0.6"
serde = { version = "1", features = ["derive"] }
serde-wasm-bindgen = "0.6"
wasm-bindgen = "0.2"
web-sys = { version = "0.3", features = ["Blob", "File", "MessageEvent", "Url", "Worker", "WorkerOptions", "WorkerType"] }
