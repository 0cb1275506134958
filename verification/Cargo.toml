[package]
name = "ruby_linter"
version = "0.1.0"
edition = "2021"
publish = false

[dependencies]
ruby-prism = "*"
serde = { version = "*", features = ["derive"] }
serde_json = "*"
wasm-bindgen = "*"
anyhow = "*"
