[package]
name = "search"
version = "0.1.0"
edition = "2021"
publish = false

[dependencies]
deserr = "*"
either = "*"
indexmap = { version = "2", features = ["serde"] }
obkv = "0.2"
regex = "1"
serde = { version = "1", features = ["derive"] }
serde_json = { version = "1", features = ["preserve_order"] }
