[package]
name = "vault_cipher"
version = "0.1.0"
edition = "2021"
publish = false

[dependencies]
chrono = { version = "0.4", default-features = false, features = ["std", "serde"] }
schemars = { version = "0.8", features = ["uuid1", "chrono"] }
serde = { version = "1", features = ["derive"] }
serde_repr = "0.1"
uuid = { version = "1", features = ["serde"] }
