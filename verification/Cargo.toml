[package]
name = "flow"
version = "0.1.0"
edition = "2021"
publish = false

[dependencies]
serde = { version = "=1.0.229", features = ["derive"] }
serde_json = "=1.0.151"
csv = "=1.4.0"
thiserror = "=2.0.21"
zen-expression = "=0.55.1"
zen-types = "=0.55.1"
