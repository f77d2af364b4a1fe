[package]
name = "tron_actuators"
version = "0.1.0"
edition = "2021"
publish = false

[dependencies]
chrono = "*"
clap = "*"
hex = "*"
prost = "*"
reqwest = { version = "*", default-features = false, features = ["blocking", "json"] }
serde_json = "*"
