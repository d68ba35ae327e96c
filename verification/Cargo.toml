[package]
name = "kv"
version = "1.0.0"
edition = "2021"
publish = false

[dependencies]
actix = "*"
actix-rt = "*"
base64 = "*"
clap = { version = "*", features = ["derive"] }
log = "*"
prost = "*"
prost-types = "*"
simple_logger = "*"
tokio = { version = "*", features = ["signal"] }
zmq = "*"
