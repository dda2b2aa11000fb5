[package]
name = "rchat"
version = "0.1.0"
edition = "2021"
publish = false

[dependencies]
rand = "=0.4.6"
grpc = "=0.6.2"
protobuf = "=2.8.2"
bytes = "=0.4.12"
futures = "=0.1.31"
tokio = "=0.1.22"
structopt = "=0.2.18"
tls-api = "=0.1.22"
