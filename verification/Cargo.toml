[package]
name = "public_api"
version = "0.1.0"
edition = "2021"
publish = false

[dependencies]
serde = "*"
serde_json = { version = "*", features = ["unbounded_depth"] }
nu-ansi-term = "*"
thiserror = "*"
cargo_toml = "*"
cargo_metadata = "*"
