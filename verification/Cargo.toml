[package]
name = "yapel"
version = "0.1.0"
edition = "2021"
publish = false

[dependencies]
md-5 = "0.10"
urlencoding = "2"
serde = { version = "1", features = ["derive"] }
serde_json = "1"
rusqlite = { version = "*", features = ["bundled"] }
