[package]
name = "blog_api"
version = "0.1.0"
edition = "2021"
publish = false

[dependencies]
argon2 = "=0.5.3"
base64 = "=0.22.1"
chrono = "=0.4.45"
jsonwebtoken = "=9.3.1"
password-hash = { version = "=0.5.0", features = ["getrandom"] }
