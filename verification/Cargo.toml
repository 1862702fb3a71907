[package]
name = "sps"
version = "0.1.0"
edition = "2021"
publish = false

[dependencies]
chrono = "=0.4.45"
ethers-core = "=2.0.14"
hmac = "=0.12.1"
jwt = "=0.16.0"
rand = "=0.8.8"
serde_json = "=1.0.151"
sha2 = "=0.10.9"
uuid = { version = "=1.27.0", features = ["v4"] }
