[package]
name = "weierstrass"
version = "0.1.0"
edition = "2021"
publish = false

[dependencies]
num = "0.4"
serde = { version = "1.0", features = ["derive"] }
