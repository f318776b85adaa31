[package]
name = "our_economy"
version = "0.1.0"
edition = "2021"
publish = false

[dependencies]
json = "*"
rusqlite = { version = "*", features = ["bundled"] }
