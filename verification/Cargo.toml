[package]
name = "prettify-js"
version = "0.1.0"
edition = "2021"
publish = false

[dependencies]
ress = "0.11"
serde_json = "1"
