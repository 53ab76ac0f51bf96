[package]
name = "audioviz"
version = "0.1.0"
edition = "2021"
publish = false

[dependencies]
anyhow = "*"
cpal = "*"
rustfft = "*"
serde = { version = "1", features = ["derive"] }
