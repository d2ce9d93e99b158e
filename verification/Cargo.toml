[package]
name = "chip8"
version = "0.1.0"
edition = "2021"
publish = false

[dependencies]
getrandom = "0.2"
serde = { version = "1", features = ["derive"] }
bincode = "1"
