[package]
name = "omarchy_updater"
version = "0.1.0"
edition = "2021"
publish = false

[dependencies]
serde = { version = "1", features = ["derive"] }
serde_json = "1"
toml = "*"
async-channel = "2"
gtk4 = { version = "*", features = ["v4_12"] }
libadwaita = "*"
