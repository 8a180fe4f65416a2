[package]
name = "leo_compiler"
version = "0.1.0"
edition = "2021"
publish = false

[dependencies]
serde = { version = "1.0", features = ["derive"] }
serde_yaml = "0.8"
sha2 = "0.10"
