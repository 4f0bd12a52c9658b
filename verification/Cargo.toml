[package]
name = "genvm"
version = "0.1.0"
edition = "2021"
publish = false

[dependencies]
zip = { version = "2", default-features = false, features = ["deflate"] }
wasmparser = "0.221"
wasm-encoder = { version = "0.221", features = ["wasmparser"] }
hex = "0.4"
primitive-types = { version = "0.12", default-features = false }
num-bigint = "0.4"
base64 = "0.22"
regex = "1"
itertools = "0.13"
symbol_table = { version = "0.3", features = ["global"] }
chrono = { version = "0.4", default-features = false, features = ["clock"] }
serde = { version = "1", features = ["derive"] }
serde_json = "1"
anyhow = "1"
