[package]
name = "mikomi"
version = "0.1.0"
edition = "2021"
publish = false

[dependencies]
xml-rs = "=0.8.29"
image = "=0.24.9"
epub = "=2.1.5"
serde = { version = "=1.0.229", features = ["derive"] }
diesel = { version = "=2.3.14", features = ["sqlite"] }
diesel_migrations = "=2.3.2"
uuid = { version = "=1.29.0", features = ["v4"] }
specta = { version = "=1.0.5", features = ["functions"] }
