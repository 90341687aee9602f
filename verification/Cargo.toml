[package]
name = "segmask"
version = "0.1.0"
edition = "2021"
publish = false

[dependencies]
base64 = "0.22"
gloo = "0.11"
js-sys = "0.3"
log = "0.4"
reqwest = { version = "0.12", default-features = false, features = ["multipart"] }
wasm-logger = "0.2"
web-sys = { version = "0.3", features = ["Event", "File", "FileList", "HtmlInputElement"] }
yew = { version = "0.21", features = ["csr"] }
