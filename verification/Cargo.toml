[package]
name = "gasguard"
version = "0.1.0"
edition = "2021"
publish = false

[dependencies]
regex = "1"
syn = { version = "2", features = ["full", "extra-traits", "parsing", "printing"] }
quote = "1"
serde = { version = "1", features = ["derive"] }
serde_json = "1"
thiserror = "1"
