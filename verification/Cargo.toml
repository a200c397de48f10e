[package]
name = "cedar_schema"
version = "0.1.0"
edition = "2021"
publish = false

[dependencies]
cedar-policy-core = "2"
serde = { version = "1", features = ["derive"] }
serde_json = "1"
serde_with = "3"
smol_str = "0.2"
