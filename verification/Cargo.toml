[package]
name = "specgap"
version = "0.1.0"
edition = "2021"
publish = false

[dependencies]
regex = "=1.13.1"
walkdir = "=2.5.0"
serde = { version = "=1.0.229", features = ["derive"] }
serde_json = "=1.0.154"
chrono = { version = "0.4", default-features = false, features = ["now"] }
