[package]
name = "query_by_graph"
version = "0.1.0"
edition = "2021"
publish = false

[dependencies]
spargebra = "*"
serde = { version = "1", features = ["derive"] }
serde_json = "1"
wasm-bindgen = "0.2"
