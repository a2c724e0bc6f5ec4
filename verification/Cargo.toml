[package]
name = "moonshine"
version = "0.1.0"
edition = "2021"
publish = false

[dependencies]
anyhow = "=1.0.104"
bytes = "=1.12.1"
hex = "=0.4.3"
http-body-util = "=0.1.5"
hyper = { version = "=1.11.1", features = ["http1", "server"] }
openssl = "=0.10.81"
reed-solomon-erasure = "=6.0.0"
socket2 = "=0.6.5"
tokio = { version = "=1.53.2", features = ["full"] }
