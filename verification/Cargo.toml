[package]
name = "login_flow"
version = "0.1.0"
edition = "2021"
publish = false

[dependencies]
anyhow = "=1.0.104"
tokio = { version = "=1.53.2", features = ["full"] }
matrix-sdk = { version = "=0.18.0", default-features = false, features = ["sso-login"] }
