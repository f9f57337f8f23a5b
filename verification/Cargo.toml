[package]
name = "kl_lords"
version = "0.1.0"
edition = "2021"
publish = false

[dependencies]
noise = "*"
rand = "*"
serde = { version = "1", features = ["derive"] }
