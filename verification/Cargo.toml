[package]
name = "python_analyzer"
version = "0.1.0"
edition = "2021"
publish = false

[dependencies]
console_error_panic_hook = "=0.1.7"
ruff_python_ast = "<=0.0.6"
ruff_python_parser = "<=0.0.6"
ruff_text_size = "<=0.0.6"
serde = { version = "=1.0.229", features = ["derive"] }
serde-wasm-bindgen = "=0.6.5"
wasm-bindgen = "=0.2.129"
