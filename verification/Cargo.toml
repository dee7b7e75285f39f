[package]
name = "rust_cli_chat"
version = "0.1.0"
edition = "2021"
publish = false

[dependencies]
anyhow = "1"
chacha20poly1305 = "0.10"
hkdf = "0.12"
rand = "0.8"
sha2 = "0.10"
tokio = { version = "1", features = ["rt-multi-thread", "macros", "net", "io-util", "io-std"] }
tokio-socks = "0.5"
x25519-dalek = { version = "2", features = ["static_secrets"] }
