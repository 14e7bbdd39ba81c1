[package]
name = "guhwall"
version = "0.1.0"
edition = "2021"
publish = false

[dependencies]
image = "*"
async-channel = "*"
rayon = "*"
walkdir = "*"
directories = "*"
serde = { version = "*", features = ["derive"] }
toml = "*"
rand = "*"
