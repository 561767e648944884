[package]
name = "audiolabs_core"
version = "0.6.2"
edition = "2021"
publish = false

[dependencies]
serde = { version = "=1.0.229", features = ["derive"] }
serde_json = "=1.0.154"
toml = "=1.1.8"
syn = { version = "=3.0.9", features = ["full", "visit"] }
walkdir = "=2.5.0"
notify = "=8.2.1"
clap = { version = "=4.6.7", features = ["derive"] }
