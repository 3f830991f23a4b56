[package]
name = "manabrew_engine"
version = "0.1.0"
edition = "2021"
publish = false

[dependencies]
indexmap = "=2.14.2"
serde = { version = "1", features = ["derive"] }

[dev-dependencies]
serde_json = "1"
