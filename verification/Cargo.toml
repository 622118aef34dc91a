[package]
name = "test_cdylib"
version = "0.1.0"
edition = "2021"
publish = false

[dependencies]
cargo_metadata = "0.9"
serde = { version = "1.0", features = ["derive"] }
serde_json = "1.0"
toml = "0.5"
