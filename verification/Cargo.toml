[package]
name = "safe_network"
version = "0.1.0"
edition = "2021"
publish = false

[dependencies]
async-trait = "0.1"
blsttc = "8"
bytes = "1"
console_error_panic_hook = "0.1"
eyre = "0.6"
futures = "0.3"
libp2p = { version = "0.54.1", features = ["cbor", "dcutr", "ed25519", "identify", "kad", "macros", "mdns", "noise", "quic", "relay", "request-response", "tokio", "upnp", "yamux"] }
prometheus-client = "0.22"
ratatui = { version = "0.26", default-features = false }
reqwest = { version = "0.12", default-features = false }
serde = { version = "1", features = ["derive"] }
serde_json = "1"
thiserror = "1"
tokio = { version = "1", features = ["fs", "macros", "rt-multi-thread", "sync", "time"] }
tracing = "0.1"
wasm-bindgen = "0.2"
web-sys = { version = "0.3", features = ["console"] }
xor_name = "5"
zip = { version = "0.6", default-features = false, features = ["deflate"] }
