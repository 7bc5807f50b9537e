[package]
name = "jwglxt"
version = "0.1.0"
edition = "2021"
publish = false

[dependencies]
base64 = "0.13"
chrono = "0.4"
clap = "3"
csv = "1"
rand = "0.8"
reqwest = { version = "0.11", default-features = false, features = ["blocking", "cookies", "rustls-tls"] }
rsa = "0.6"
serde_json = "1"
