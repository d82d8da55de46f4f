[package]
name = "create_v1_app"
version = "0.1.0"
edition = "2021"
publish = false

[dependencies]
anyhow = "1"
clap = { version = "4", features = ["derive"] }
ctrlc = "3"
dialoguer = "*"
regex = "1"
serde_json = "1"
tera = "1"
walkdir = "2"
