[package]
name = "payments"
version = "0.1.0"
edition = "2021"
publish = false

[dependencies]
csv = "1"
mimalloc = "0.1"
serde = { version = "1", features = ["derive"] }
