[package]
name = "httpeeker"
version = "0.1.0"
edition = "2021"
publish = false

[dependencies]
hudsucker = { version = "=0.21.0", features = ["openssl-ca"] }
tokio = { version = "=1.54.1", features = ["full"] }
