[package]
name = "td_id_analysis"
version = "0.1.0"
edition = "2021"
publish = false

[dependencies]
bit-vec = "*"
rusqlite = { version = "*", features = ["bundled"] }
