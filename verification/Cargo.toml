[package]
name = "http2_server"
version = "0.1.0"
edition = "2021"
publish = false

[dependencies]
chrono = "0.4"
hpack = "0.3"
openssl = "0.10"
threadpool = "1.8"
