[package]
name = "foundry_bench"
version = "0.1.0"
edition = "2021"
publish = false

[dependencies]
clap = { version = "*", features = ["derive"] }
dotenvy = "*"
eyre = "*"
rayon = "*"
serde = { version = "*", features = ["derive"] }
serde_json = "*"
shellexpand = "*"
tempfile = "*"
toml = "*"
yansi = "*"
