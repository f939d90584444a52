[package]
name = "charon"
version = "0.1.0"
edition = "2021"
publish = false

[dependencies]
glob = "0.3"
toml = "0.8"
serde = { version = "1", features = ["derive"] }
chrono = "0.4"
duct = "0.13"
