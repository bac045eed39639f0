[package]
name = "havit"
version = "0.1.0"
edition = "2021"
publish = false

[dependencies]
rusqlite = { version = "*", features = ["bundled"] }
blake3 = "*"
walkdir = "*"
chrono = "*"
clap = "*"
humansize = "*"

[dev-dependencies]
barrel = { version = "*", features = ["sqlite3"] }
