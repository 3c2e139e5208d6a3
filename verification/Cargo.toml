[package]
name = "catscii"
version = "0.1.0"
edition = "2021"
publish = false

[dependencies]
image = "*"
artem = "*"
axum = "*"
tokio = { version = "*", features = ["rt-multi-thread", "macros", "net"] }
reqwest = { version = "*", default-features = false, features = ["rustls-tls"] }
tracing = "*"
tracing-subscriber = { version = "*", features = ["json"] }
