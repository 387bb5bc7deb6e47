[package]
name = "violet"
version = "0.1.0"
edition = "2021"
publish = false

[dependencies]
heck = "=0.5.0"
slotmap = "=1.1.1"
palette = "=0.7.7"
glam = "=0.34.2"
futures = "*"
pin-project = "*"
serde = { version = "*", features = ["derive"] }
serde_json = "*"
indexmap = { version = "*", features = ["serde"] }
web-time = "*"
