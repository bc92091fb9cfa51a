[package]
name = "mlg"
version = "0.1.0"
edition = "2021"
publish = false

[dependencies]
clap = "4"
csv = "1"
hashbrown = "*"
serde = { version = "1", features = ["derive"] }
serde_json = "1"
