[package]
name = "elliptic-curve"
version = "0.1.0"
edition = "2021"
publish = false

[dependencies]
base16ct = { version = "0.1", features = ["alloc"] }
base64ct = { version = "1", features = ["alloc"] }
der = { version = "0.5", features = ["alloc", "oid"] }
pkcs8 = { version = "0.8", features = ["pem", "alloc"] }
serde = { version = "1", features = ["derive"] }
serde_json = "1"
