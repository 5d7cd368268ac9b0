[package]
name = "eip1193_browser"
version = "0.1.0"
edition = "2021"
publish = false

[dependencies]
alloy-primitives = { version = "0.7", features = ["serde"] }
alloy-chains = "0.1"
alloy-json-rpc = "0.1"
alloy-transport = "0.1"
alloy-rpc-client = { version = "0.1", default-features = false }
alloy-rpc-types = "0.1"
hex = "0.4"
serde = "1"
serde_json = { version = "1", features = ["raw_value"] }
serde-wasm-bindgen = "0.6"
thiserror = "1"
futures = "0.3"
async-trait = "0.1"
tower = { version = "0.4", default-features = false }
js-sys = "0.3"
wasm-bindgen = "0.2"
wasm-bindgen-futures = "0.4"
unsafe-send-sync = "0.1"
