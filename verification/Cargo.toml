[package]
name = "tgh"
version = "0.1.0"
edition = "2021"
publish = false

[dependencies]
arboard = { version = "*", default-features = false }
clap = { version = "4", features = ["derive"] }
crossterm = "*"
home = "*"
inquire = "*"
regex = "1"
reqwest = { version = "*", features = ["json"] }
self_update = "*"
semver = "1"
serde = { version = "1", features = ["derive"] }
serde_json = "1"
spinners = "*"
tokio = { version = "1", features = ["full"] }
