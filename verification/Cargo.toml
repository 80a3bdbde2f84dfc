[package]
name = "tablestore"
version = "0.1.0"
edition = "2021"
publish = false

[dependencies]
rust-crypto = "0.2"
base64 = "0.13"
chrono = "0.4"
rand = "0.8"
hyper = { version = "0.14", default-features = false, features = ["client", "http1", "tcp"] }
http = "0.2"
tokio = { version = "1", default-features = false, features = ["rt-multi-thread", "macros", "sync", "time"] }
