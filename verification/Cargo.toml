[package]
name = "http_vfs"
version = "0.1.0"
edition = "2021"
publish = false

[dependencies]
reqwest = { version = "*", default-features = false, features = ["blocking"] }
tokio = { version = "1", features = ["rt-multi-thread"] }
futures = "0.3"
rand = "0.8"
sqlite-vfs = "*"
