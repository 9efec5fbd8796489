[package]
name = "paper"
version = "0.4.0"
edition = "2021"
publish = false

[dependencies]
regex = "1"
url = "2"
serde_json = "1"
serde = { version = "1", features = ["derive"] }
toml = "0.5"
crossterm = "0.19"
structopt = "0.3"
log = "0.4"
dirs = "3"
