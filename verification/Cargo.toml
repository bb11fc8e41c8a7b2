[package]
name = "emerald"
version = "0.1.0"
edition = "2021"
publish = false

[dependencies]
markdown = "=1.0.0"
serde_yaml = "=0.9.34"
toml = { version = "=1.1.6", features = ["preserve_order"] }
serde = { version = "=1.0.229", features = ["derive"] }
mlua = { version = "=0.12.2", features = ["lua54", "vendored", "serialize"] }
