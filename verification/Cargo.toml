[package]
name = "rand_sequence"
version = "0.2.0"
edition = "2021"
publish = false

[dependencies]
machine-prime = "*"
rand = "0.8"
serde = { version = "1", features = ["derive"] }
