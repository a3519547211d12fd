[package]
name = "relay"
version = "0.1.0"
edition = "2021"
publish = false

[dependencies]
ammonia = "=4.2.1"
base64 = "=0.23.1"
bcrypt = "=0.19.3"
reqwest = { version = "=0.12.28", default-features = false, features = ["blocking", "json", "rustls-tls"] }
rsa = { version = "=0.9.10", features = ["sha2"] }
serde = { version = "=1.0.229", features = ["derive"] }
serde_json = "=1.0.151"
ttl_cache = "=0.5.1"
uuid = { version = "=1.27.0", features = ["v4"] }

[dev-dependencies]
rand = "=0.8.5"
