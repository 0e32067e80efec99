[package]
name = "proxy_core"
version = "0.1.0"
edition = "2021"
publish = false

[dependencies]
flate2 = "1"
http = "0.2"
hyper = { version = "0.14", features = ["full"] }
reqwest = { version = "0.11", default-features = false }
thiserror = "1"
tokio = { version = "1", features = ["full"] }
tower = { version = "0.4", features = ["make", "util"] }
