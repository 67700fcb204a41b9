[package]
name = "authenticate_ntlm"
version = "0.1.0"
edition = "2021"
publish = false

[dependencies]
base64 = "=0.22.1"
hmac = "=0.12.1"
md-5 = "=0.10.6"

[dev-dependencies]
md4 = "=0.10.2"
