[package]
name = "tcp_connector"
version = "0.1.0"
edition = "2021"
publish = false

[dependencies]
actix-rt = "2"
actix-service = "2"
futures-core = "0.3"
log = "0.4"
tokio-util = "0.6"
