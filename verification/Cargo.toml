[package]
name = "antgrid"
version = "0.1.0"
edition = "2021"
publish = false

[dependencies]
rand = "*"
image = "*"
toml = "*"
serde = { version = "1", features = ["derive"] }
