[package]
name = "wildptr"
version = "1.0.0"
edition = "2021"
publish = false

[dependencies]
substring = "1"
reqwest = { version = "*", features = ["blocking"] }
serde = { version = "1", features = ["derive"] }
serde_json = "1"
