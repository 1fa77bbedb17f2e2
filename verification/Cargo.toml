[package]
name = "bug_spray"
version = "0.1.0"
edition = "2021"
publish = false

[dependencies]
hostname = "*"

[dev-dependencies]
serde_json = "*"
