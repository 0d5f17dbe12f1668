[package]
name = "date_time"
version = "2.2.0"
edition = "2021"
publish = false

[dependencies]
serde = { version = "=1.0.229", features = ["derive"] }

[dev-dependencies]
regex = "1"
