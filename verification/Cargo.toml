[package]
name = "olivia"
version = "0.1.0"
edition = "2021"
publish = false

[dependencies]
blake2 = "=0.9.2"
chacha20 = { version = "=0.7.3", features = ["rng"] }
rand = "=0.8.8"
chrono = "=0.4.45"
schnorr_fun = { version = "=0.6.2", default-features = false, features = ["std"] }
ecdsa_fun = { version = "=0.6.2", default-features = false, features = ["std"] }
sha2 = "=0.9.9"
serde = { version = "=1.0.229", features = ["derive"] }
serde_json = "=1.0.154"
serde_yaml = "=0.8.26"
http = "0.2"
percent-encoding = "2"
url = "2"
