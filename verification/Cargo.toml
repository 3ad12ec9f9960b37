[package]
name = "disko"
version = "0.1.0"
edition = "2021"
publish = false

[dependencies]
anyhow = "*"
indexmap = { version = "*", features = ["serde"] }
regex = "*"
serde = { version = "*", features = ["derive"] }
serde_json = "*"
