[package]
name = "riversd"
version = "0.1.0"
edition = "2021"
publish = false

[dependencies]
serde_json = "1"
flate2 = "1"
percent-encoding = "2"
hex = "0.4"
sha2 = "0.10"
hmac = "0.12"
bcrypt = "*"
base64 = "0.22"
rand = "0.8"
swc_sourcemap = "*"
metrics = "*"
