[package]
name = "sprinkle"
version = "0.1.0"
edition = "2021"
publish = false

[dependencies]
cargo_metadata = "*"
serde_json = "*"
serde = { version = "*", features = ["derive"] }
