[package]
name = "yayti"
version = "0.1.0"
edition = "2021"
publish = false

[dependencies]
regex = "1"
chrono = { version = "0.4", default-features = false, features = ["std"] }
urlencoding = "2.1"
urldecode = "0.1"
substring = "1.4"
boa_engine = "0.16"
serde = { version = "1", features = ["derive"] }
serde_json = "1"
reqwest = { version = "0.11", default-features = false, features = ["rustls-tls"] }
log = "0.4"
rand = "0.8"
