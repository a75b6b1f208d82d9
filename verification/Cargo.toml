[package]
name = "spawnpoint"
version = "0.1.0"
edition = "2021"
publish = false

[dependencies]
heck = "*"
clap = { version = "*", features = ["derive"] }
dialoguer = "*"
directories = "*"
duct = "*"
serde = { version = "*", features = ["derive"] }
serde_yaml = "*"
tempfile = "*"
walkdir = "*"
