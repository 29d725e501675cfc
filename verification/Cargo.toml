[package]
name = "wasi_worker"
version = "0.5.0"
edition = "2021"
publish = false

[dependencies]
bincode = "=1.3.3"
serde = { version = "=1.0.229", features = ["derive"] }
structopt = "=0.3.26"
toml_edit = "=0.2.1"
wasm-gc-api = "=0.1.11"
yew = "=0.17.2"
