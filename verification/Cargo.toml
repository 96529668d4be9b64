[package]
name = "celsp"
version = "0.1.0"
edition = "2021"
publish = false

[dependencies]
cel-core = "*"
cel-core-proto = "*"
lsp-types = "0.94"
serde_json = "1"
tower-lsp = "0.20"
wasm-bindgen = "0.2"
