[package]
name = "core_rs"
version = "0.1.0"
edition = "2021"
publish = false

[dependencies]
base64 = "=0.22.1"
pulldown-cmark = { version = "=0.12.2", default-features = false }
roxmltree = "=0.20.0"
zip = { version = "=2.6.1", default-features = false, features = ["deflate"] }
sha2 = "=0.10.9"
serde = { version = "=1.0.229", features = ["derive"] }
serde_json = "=1.0.154"
thiserror = "=2.0.21"
wasm-bindgen = "=0.2.130"
