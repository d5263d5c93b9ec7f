[package]
name = "rust_ruleengine"
version = "0.1.0"
edition = "2021"

[dependencies]
rayon = "1"
serde = { version = "1", features = ["derive"] }
serde_json = "1"
