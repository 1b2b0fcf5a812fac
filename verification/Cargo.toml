[package]
name = "liu_ime"
version = "0.1.0"
edition = "2021"
publish = false

[dependencies]
anyhow = "*"
fs2 = "*"
serde = { version = "*", features = ["derive"] }
serde_json = "*"
