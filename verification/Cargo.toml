[package]
name = "kiln"
version = "0.1.0"
edition = "2021"
publish = false

[dependencies]
serde = { version = "1", features = ["derive"] }
bincode = { version = "2", features = ["serde"] }
thiserror = "2"
reqwest = { version = "0.12", default-features = false, features = ["blocking"] }
