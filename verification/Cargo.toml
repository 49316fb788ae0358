[package]
name = "talent_search"
version = "0.1.0"
edition = "2021"
publish = false

[dependencies]
chrono = "*"
searchspot = "*"
rs-es = "*"
params = "*"
serde = { version = "*", features = ["derive"] }
serde_json = "*"
