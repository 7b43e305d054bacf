[package]
name = "libmikoto"
version = "0.1.0"
edition = "2021"
publish = false

[dependencies]
anyhow = "*"
rubato = "*"
serde = { version = "*", features = ["derive"] }
