[package]
name = "polling_contract"
version = "0.1.0"
edition = "2021"
publish = false

[dependencies]
hex = "0.4"
sha2 = "0.10"
secret-cosmwasm-std = "*"
secret-toolkit = { version = "*", default-features = false, features = ["permit", "storage"] }
serde = { version = "1", default-features = false, features = ["derive"] }
schemars = "0.8"
cosmwasm-schema = "1"
