[package]
name = "growterm"
version = "0.1.0"
edition = "2021"
publish = false

[dependencies]
unicode-width = "0.1"
vte = "0.13"
portable-pty = "0.8"
toml = "0.8"
serde = { version = "1", features = ["derive"] }
