[package]
name = "hoardbase"
version = "0.1.0"
edition = "2021"
publish = false

[dependencies]
rusqlite = { version = "*", features = ["bundled", "functions"] }
blake3 = "*"
hex = "*"
slugify = "*"
chrono = "*"
