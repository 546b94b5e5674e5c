[package]
name = "cc_switch"
version = "0.1.0"
edition = "2021"
publish = false

[dependencies]
axum = "*"
dirs = "*"
http-body-util = "*"
hyper-rustls = "*"
hyper-util = { version = "*", features = ["client-legacy", "http1", "http2", "tokio"] }
reqwest = { version = "*", default-features = false, features = ["rustls-tls"] }
rquickjs = "*"
rustls = "*"
serde_json = "*"
tokio = { version = "*", features = ["macros", "net", "rt-multi-thread", "sync", "time"] }
tower = "*"
