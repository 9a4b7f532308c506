[package]
name = "hanzo"
version = "0.1.0"
edition = "2021"
publish = false

[dependencies]
bincode = "1"
clap = { version = "4", features = ["derive"] }
crossterm = "0.27"
log = "0.4"
rand = "0.8"
serde = { version = "1", features = ["derive"] }
simple-logging = "2"
toml = "0.8"
