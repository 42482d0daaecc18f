[package]
name = "secreton_api"
version = "0.1.0"
edition = "2021"
publish = false

[dependencies]
hmac = "=0.12.1"
sha1 = "=0.10.7"
sha2 = "=0.10.9"
sha3 = "=0.10.9"
hex = "=0.4.3"
base64 = "=0.22.1"
base32 = "=0.5.1"
rand = "=0.8.8"
uuid = { version = "=1.29.0", features = ["v4", "v5"] }
x509-parser = "=0.16.0"
lru = "=0.12.5"
totp-rs = { version = "=5.7.2", features = ["otpauth"] }
serde = { version = "=1.0.229", features = ["derive"] }
serde_json = "=1.0.154"
chrono = "=0.4.45"
