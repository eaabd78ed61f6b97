[package]
name = "quicknotes"
version = "0.1.0"
edition = "2021"
publish = false

[dependencies]
anyhow = "1"
chrono = "0.4"
chrono-english = "0.1"
clap = "4"
colored = "*"
directories = "*"
itertools = "*"
nucleo-picker = "*"
regex = "1"
rusqlite = { version = "*", features = ["bundled"] }
rusqlite_migration = "*"
serde = { version = "1", features = ["derive"] }
sha2 = "0.10"
tempfile = "3"
thiserror = "*"
toml = { version = "0.8", features = ["preserve_order"] }
walkdir = "2"
