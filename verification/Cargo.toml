[package]
name = "valens_frontend"
version = "0.1.0"
edition = "2021"
publish = false

[dependencies]
async-trait = "=0.1.92"
chrono = { version = "=0.4.45", features = ["serde"] }
seed = { version = "=0.10.0", features = ["routing"] }
serde = { version = "=1.0.229", features = ["derive"] }
