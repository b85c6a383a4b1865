[package]
name = "playbar"
version = "0.1.0"
edition = "2021"
publish = false

[dependencies]
openssl = "0.10"
base64 = "0.13"
ring = "0.17"
percent-encoding = "1.0"
rust-crypto = "0.2"
http_req = "*"
rpassword = "*"
serde = { version = "1", features = ["derive"] }
serde_json = "1"
app_dirs = "1.2"
