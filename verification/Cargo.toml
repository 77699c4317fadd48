[package]
name = "ocpi_kit"
version = "0.1.0"
edition = "2021"
publish = false

[dependencies]
base64 = "=0.22.1"
subtle = "=2.6.1"
time = "=0.3.55"
url = "=2.5.8"
uuid = { version = "=1.29.0", features = ["v4"] }
http = "=1.5.0"
serde = { version = "=1.0.229", features = ["derive"] }
serde_json = "=1.0.154"
rust_decimal = "=1.43.0"
tz-rs = "*"
tzdb = "*"
