[package]
name = "mixing_pool"
version = "0.1.0"
edition = "2021"
publish = false

[dependencies]
base64 = "=0.13.1"
cosmwasm-std = "=0.10.1"
hex = "=0.4.3"
schemars = "=0.7.6"
secret-cosmwasm-std = "=0.10.1"
secret-toolkit = { version = "=0.2.0", features = ["crypto"] }
serde = { version = "=1.0.229", features = ["derive"] }
sha2 = "=0.9.9"
