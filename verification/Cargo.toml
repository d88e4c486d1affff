[package]
name = "datarace"
version = "0.1.0"
edition = "2021"
publish = false

[dependencies]
highway = "=1.3.0"
hashbrown = "=0.15.5"
serde = { version = "=1.0.229", features = ["derive"] }
serde_json = "=1.0.154"
toml = "=1.1.8"
dirs = "=7.0.0"
maud = "*"
