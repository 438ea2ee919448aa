[package]
name = "http_core"
version = "0.1.0"
edition = "2021"
publish = false

[dependencies]
bytes = "1"
futures-core = "0.3"
http = "1"
itoa = "1"

[dev-dependencies]
httparse = "1"
