[package]
name = "photo_tools"
version = "0.1.0"
edition = "2021"
publish = false

[dependencies]
clap = "*"
walkdir = "*"
dotenv = "*"
chrono = "*"
rusqlite = { version = "*", features = ["bundled"] }
