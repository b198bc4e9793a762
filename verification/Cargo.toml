[package]
name = "quote_offer"
version = "0.1.0"
edition = "2021"
publish = false

[dependencies]
bitcoin = { version = "=0.32.102", default-features = false, features = ["std", "base64", "rand-std"] }
ciborium = "=0.2.2"
serde = { version = "=1.0.229", features = ["derive"] }
thiserror = "=2.0.21"

[dev-dependencies]
serde_json = "=1.0.154"
