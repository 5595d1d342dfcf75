[package]
name = "shipcat"
version = "0.1.0"
edition = "2021"
publish = false

[dependencies]
base64 = "*"
chrono = "*"
dirs = "*"
petgraph = "*"
reqwest = { version = "*", default-features = false, features = ["blocking"] }
semver = "*"
serde_json = "*"
threadpool = "*"
