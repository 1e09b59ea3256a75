[package]
name = "xproxy"
version = "0.1.0"
edition = "2021"
publish = false

[dependencies]
openssl = "0.10"
tokio = { version = "1", features = ["rt-multi-thread", "macros"] }
chrono = "0.4"
spin = "0.9"

[dev-dependencies]
regex = "1"
