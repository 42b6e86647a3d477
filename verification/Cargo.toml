[package]
name = "compose"
version = "0.1.0"
edition = "2021"
publish = false

[dependencies]
anyhow = "*"
clap = { version = "*", features = ["derive"] }
serde_yaml = "*"
serde_json = "*"
yansi = "*"
path-absolutize = "*"
