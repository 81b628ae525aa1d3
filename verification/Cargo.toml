[package]
name = "spaces"
version = "0.1.0"
edition = "2021"
publish = false

[dependencies]
libp2p = { version = "*", default-features = false, features = ["ed25519"] }
uuid = { version = "1", features = ["v4", "serde"] }
sha3 = "0.10"
serde = { version = "1", features = ["derive", "rc"] }
bincode = "1"
thiserror = "1"
anyhow = "1"
log = "0.4"
env_logger = "*"
chrono = { version = "0.4", features = ["serde"] }
lunatic = "*"
tungstenite = "*"
futures = "0.3"
async-std = "1"
gloo = "*"
wasm-bindgen-futures = "*"
web-sys = { version = "*", features = ["HtmlInputElement"] }
yew = { version = "*", features = ["csr"] }
yew-router = "*"
yewdux = "*"
console_error_panic_hook = "*"
wasm-logger = "*"
