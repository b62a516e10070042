[package]
name = "shikataganai"
version = "0.1.0"
edition = "2021"
publish = false

[dependencies]
itertools = "0.10"
bytemuck = "1"
serde = { version = "1", features = ["derive"] }
bincode = "1"
toml = "0.5"
