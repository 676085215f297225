[package]
name = "eddiner"
version = "0.1.0"
edition = "2021"
publish = false

[dependencies]
anyhow = "=1.0.104"
base64 = "=0.21.7"
chrono = "=0.4.45"
cookie = "=0.18.2"
encoding_rs = "=0.8.42"
jwt-simple = { version = "=0.12.17", default-features = false, features = ["pure-rust"] }
md-5 = "=0.10.6"
minijinja = "=1.0.22"
pwhash = "=1.0.0"
rand = "=0.8.8"
reqwest = { version = "=0.11.27", default-features = false }
serde = { version = "=1.0.229", features = ["derive"] }
serde_json = "=1.0.154"
sha1 = "=0.10.7"
sha2 = "=0.10.9"
tokio = { version = "=1.54.1", default-features = false, features = ["macros"] }
worker = { version = "0.8", features = ["d1"] }
