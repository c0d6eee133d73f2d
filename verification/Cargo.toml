[package]
name = "doctags"
version = "0.1.0"
edition = "2021"
publish = false

[dependencies]
tantivy = "*"
toml = "*"
serde = { version = "*", features = ["derive"] }
ignore = "*"
anyhow = "*"
